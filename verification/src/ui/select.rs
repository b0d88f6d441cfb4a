//! The arrow-key selector's rows, and the numbered fallback used when
//! input is not a terminal. Reading keys and drawing stay with the program.
use vstd::prelude::*;

use crate::text::{chars_of, decimal, decimal_value, owned, parse_decimal_upto, push_decimal, trim, trim_str};

verus! {

/// One selectable row: label, dim hint, optional badge.
#[derive(Debug, Clone)]
pub struct SelectOption {
    pub label: String,
    pub hint: String,
    pub badge: Option<String>,
}

impl SelectOption {
    pub fn new(label: &str, hint: &str) -> (r: Self)
        ensures
            r.label@ == label@,
            r.hint@ == hint@,
            r.badge is None,
    {
        SelectOption { label: owned(label), hint: owned(hint), badge: None }
    }

    /// Sets the badge; an empty one means none.
    pub fn with_badge(self, badge: &str) -> (r: Self)
        ensures
            r.label@ == self.label@,
            r.hint@ == self.hint@,
            match r.badge {
                Some(b) => b@ == badge@ && badge@.len() > 0,
                None => badge@.len() == 0,
            },
    {
        let mut s = self;
        s.badge = if badge.is_empty() {
            None
        } else {
            Some(owned(badge))
        };
        s
    }
}

/// Lines the selector draws: the items and a footer.
pub fn drawn_lines(n: usize) -> (r: u16)
    requires
        n < usize::MAX,
    ensures
        r == (n + 1) as u16,
{
    (n + 1) as u16
}

/// The footer under the items.
pub fn footer() -> (r: &'static str)
    ensures
        r@ == "\x1b[90m   ↑↓ 移动  Enter 确认  Esc 跳过\x1b[0m"@,
{
    "\x1b[90m   ↑↓ 移动  Enter 确认  Esc 跳过\x1b[0m"
}

/// How row `i` looks with the cursor on row `pos`: the current row gets a
/// cyan arrow and a bold label; the hint is dim, the badge cyan.
pub open spec fn option_row(i: int, pos: int, label: Seq<char>, hint: Seq<char>, badge: Option<Seq<char>>) -> Seq<char> {
    let b = match badge {
        Some(x) => "  \x1b[96m"@ + x + "\x1b[0m"@,
        None => Seq::empty(),
    };
    let h = if hint.len() == 0 {
        Seq::empty()
    } else {
        "  \x1b[90m"@ + hint + "\x1b[0m"@
    };
    if i == pos {
        "   \x1b[96m►\x1b[0m \x1b[1m"@ + label + "\x1b[0m"@ + h + b
    } else {
        "     \x1b[0m"@ + label + h + b
    }
}

pub open spec fn badge_view(b: Option<String>) -> Option<Seq<char>> {
    match b {
        Some(x) => Some(x@),
        None => None,
    }
}

pub fn format_option(i: usize, pos: usize, opt: &SelectOption) -> (r: String)
    ensures
        r@ == option_row(i as int, pos as int, opt.label@, opt.hint@, badge_view(opt.badge)),
{
    let mut s = if i == pos {
        let mut s = owned("   \x1b[96m►\x1b[0m \x1b[1m");
        s.append(opt.label.as_str());
        s.append("\x1b[0m");
        s
    } else {
        let mut s = owned("     \x1b[0m");
        s.append(opt.label.as_str());
        s
    };
    if !opt.hint.as_str().is_empty() {
        s.append("  \x1b[90m");
        s.append(opt.hint.as_str());
        s.append("\x1b[0m");
    }
    match &opt.badge {
        Some(b) => {
            s.append("  \x1b[96m");
            s.append(b.as_str());
            s.append("\x1b[0m");
        },
        None => {},
    }
    assert(s@ =~= option_row(i as int, pos as int, opt.label@, opt.hint@, badge_view(opt.badge)));
    s
}

/// The numbered list printed when input is not a terminal: "   N  label".
pub open spec fn numbered_row(i: nat, label: Seq<char>) -> Seq<char> {
    "   "@ + decimal(i + 1) + "  "@ + label
}

pub fn numbered_rows(options: &[SelectOption]) -> (r: Vec<String>)
    requires
        options@.len() < u64::MAX,
    ensures
        r@.len() == options@.len(),
        forall|i: int| 0 <= i < r@.len() ==> (#[trigger] r@[i])@ == numbered_row(i as nat, options@[i].label@),
{
    let mut r: Vec<String> = Vec::new();
    let mut i: usize = 0;
    while i < options.len()
        invariant
            i <= options@.len(),
            options@.len() < u64::MAX,
            r@.len() == i,
            forall|k: int| 0 <= k < i ==> (#[trigger] r@[k])@ == numbered_row(k as nat, options@[k].label@),
        decreases options.len() - i,
    {
        let mut s = owned("   ");
        push_decimal(&mut s, i as u64 + 1);
        s.append("  ");
        s.append(options[i].label.as_str());
        r.push(s);
        i += 1;
    }
    r
}

/// The prompt after the numbered list: "   选择 [N]: " with the default.
pub fn fallback_prompt(default: usize) -> (r: String)
    requires
        default < u64::MAX,
    ensures
        r@ == "   选择 ["@ + decimal(default as nat + 1) + "]: "@,
{
    let mut s = owned("   选择 [");
    push_decimal(&mut s, default as u64 + 1);
    s.append("]: ");
    s
}

/// The choice typed at the numbered prompt: a number from 1 to `len`
/// picks that row; an empty line or anything else keeps the default.
pub open spec fn fallback_spec(input: Seq<char>, len: nat, default: nat) -> nat {
    let t = trim(input);
    if t.len() == 0 {
        default
    } else {
        match decimal_value(t) {
            Some(n) => if 1 <= n <= len {
                (n - 1) as nat
            } else {
                default
            },
            None => default,
        }
    }
}

pub fn fallback_choice(input: &str, len: usize, default: usize) -> (r: usize)
    ensures
        r == fallback_spec(input@, len as nat, default as nat),
{
    let t = trim_str(input);
    if t.as_str().is_empty() {
        return default;
    }
    let v = chars_of(t.as_str());
    match parse_decimal_upto(v.as_slice(), len as u64) {
        Some(n) => if n >= 1 {
            (n - 1) as usize
        } else {
            default
        },
        None => default,
    }
}

} // verus!
