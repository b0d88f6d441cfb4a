//! Terminal presentation: colours, the robot faces, banners, selector
//! rows and the localized texts.
pub mod art;
pub mod banner;
pub mod i18n;
pub mod select;
pub mod theme;
