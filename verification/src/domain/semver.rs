//! Version parsing and comparison, including the pre-release rule.
use std::cmp::Ordering;

use vstd::prelude::*;

use crate::text::{
    all_digits, char_pos, chars_of, digits_value, is_digit, lemma_char_pos, copy_range, digit_run,
    digit_run_len, find_char, parse_u32, parse_u32_chars, skip_leading, strip_leading,
};

verus! {

// ─── Specification ──────────────────────────────────────────────────────────

/// Major and minor version of `v`: leading `v`s ignored, the major is the
/// first `.`-separated field, the minor is the leading digits of the second.
pub open spec fn major_minor(v: Seq<char>) -> Option<(u32, u32)> {
    let w = strip_leading(v, 'v');
    let p = char_pos(w, '.');
    match parse_u32(w.subrange(0, p as int)) {
        None => None,
        Some(major) => if p >= w.len() {
            None
        } else {
            let rest = w.subrange(p as int + 1, w.len() as int);
            let seg = rest.subrange(0, char_pos(rest, '.') as int);
            match parse_u32(seg.subrange(0, digit_run(seg) as int)) {
                Some(minor) => Some((major, minor)),
                None => None,
            }
        }
    }
}

/// The `c`-separated fields of `s` (what `str::split` yields).
pub open spec fn split_fields(s: Seq<char>, c: char) -> Seq<Seq<char>>
    decreases s.len(),
{
    let k = char_pos(s, c);
    if k >= s.len() {
        seq![s]
    } else {
        seq![s.subrange(0, k as int)] + split_fields(s.subrange(k as int + 1, s.len() as int), c)
    }
}

/// Numeric value of each field, unparsable fields counting as zero.
pub open spec fn field_numbers(fs: Seq<Seq<char>>) -> Seq<u32> {
    fs.map_values(|f: Seq<char>| match parse_u32(f) {
        Some(n) => n,
        None => 0u32,
    })
}

/// Numeric core and optional pre-release tag of a version string.
pub open spec fn version_parts(v: Seq<char>) -> (Seq<u32>, Option<Seq<char>>) {
    let w = strip_leading(v, 'v');
    let k = char_pos(w, '-');
    let core = w.subrange(0, k as int);
    let pre = if k < w.len() {
        Some(w.subrange(k as int + 1, w.len() as int))
    } else {
        None
    };
    (field_numbers(split_fields(core, '.')), pre)
}

/// Field `i` of `a`, zero past its end.
pub open spec fn padded(a: Seq<u32>, i: int) -> int {
    if 0 <= i < a.len() {
        a[i] as int
    } else {
        0
    }
}

/// Longer of two lengths.
pub open spec fn max_len(a: Seq<u32>, b: Seq<u32>) -> int {
    if a.len() >= b.len() {
        a.len() as int
    } else {
        b.len() as int
    }
}

/// Order of two numeric cores from field `i` on, shorter one padded with
/// zeros: -1, 0 or 1.
pub open spec fn num_order(a: Seq<u32>, b: Seq<u32>, i: int) -> int
    decreases max_len(a, b) - i,
{
    if i >= max_len(a, b) || i < 0 {
        0
    } else if padded(a, i) < padded(b, i) {
        -1
    } else if padded(a, i) > padded(b, i) {
        1
    } else {
        num_order(a, b, i + 1)
    }
}

/// Lexicographic order of two character sequences: -1, 0 or 1.
pub open spec fn lex_order(x: Seq<char>, y: Seq<char>) -> int
    decreases x.len(),
{
    if x.len() == 0 {
        if y.len() == 0 {
            0
        } else {
            -1
        }
    } else if y.len() == 0 {
        1
    } else if x[0] < y[0] {
        -1
    } else if x[0] > y[0] {
        1
    } else {
        lex_order(x.drop_first(), y.drop_first())
    }
}

/// `s` is a numeric identifier: one or more ASCII digits.
pub open spec fn is_numeric(s: Seq<char>) -> bool {
    s.len() > 0 && all_digits(s)
}

/// -1, 0 or 1 as `a` is below, equal to or above `b`.
pub open spec fn sign_order(a: int, b: int) -> int {
    if a < b {
        -1
    } else if a > b {
        1
    } else {
        0
    }
}

/// Order of two pre-release identifiers: numeric ones by their value and
/// below every other identifier; the others character by character.
pub open spec fn ident_order(x: Seq<char>, y: Seq<char>) -> int {
    if is_numeric(x) && is_numeric(y) {
        sign_order(digits_value(x) as int, digits_value(y) as int)
    } else if is_numeric(x) {
        -1
    } else if is_numeric(y) {
        1
    } else {
        lex_order(x, y)
    }
}

/// Order of two identifier lists: the first pair that differs decides, and
/// a list that runs out first ranks lower.
pub open spec fn idents_order(xs: Seq<Seq<char>>, ys: Seq<Seq<char>>) -> int
    decreases xs.len(),
{
    if xs.len() == 0 {
        if ys.len() == 0 {
            0
        } else {
            -1
        }
    } else if ys.len() == 0 {
        1
    } else if ident_order(xs[0], ys[0]) != 0 {
        ident_order(xs[0], ys[0])
    } else {
        idents_order(xs.drop_first(), ys.drop_first())
    }
}

/// Order of two pre-release tags: no tag ranks above any tag, and two tags
/// compare by their `.`-separated identifiers.
pub open spec fn pre_order(a: Option<Seq<char>>, b: Option<Seq<char>>) -> int {
    match (a, b) {
        (None, None) => 0,
        (None, Some(_)) => 1,
        (Some(_), None) => -1,
        (Some(x), Some(y)) => idents_order(split_fields(x, '.'), split_fields(y, '.')),
    }
}

/// Order of two version strings: numeric core first, then pre-release tag.
pub open spec fn version_order(a: Seq<char>, b: Seq<char>) -> int {
    let (an, ap) = version_parts(a);
    let (bn, bp) = version_parts(b);
    let c = num_order(an, bn, 0);
    if c != 0 {
        c
    } else {
        pre_order(ap, bp)
    }
}

/// -1, 0 or 1 for `Less`, `Equal`, `Greater`.
pub open spec fn ord_value(o: Ordering) -> int {
    match o {
        Ordering::Less => -1,
        Ordering::Equal => 0,
        Ordering::Greater => 1,
    }
}

// ─── Implementation ─────────────────────────────────────────────────────────

/// Major and minor version of `x.y[...]`; tolerates a `v` prefix and
/// `-dev` / `+build` suffixes on the minor.
pub fn parse_major_minor(v: &str) -> (r: Option<(u32, u32)>)
    ensures
        r == major_minor(v@),
{
    let cs = chars_of(v);
    let s = skip_leading(cs.as_slice(), 'v');
    let w = copy_range(cs.as_slice(), s, cs.len());
    let p = find_char(w.as_slice(), '.');
    let head = copy_range(w.as_slice(), 0, p);
    let major = match parse_u32_chars(head.as_slice()) {
        Some(m) => m,
        None => return None,
    };
    if p >= w.len() {
        return None;
    }
    let rest = copy_range(w.as_slice(), p + 1, w.len());
    let q = find_char(rest.as_slice(), '.');
    let seg = copy_range(rest.as_slice(), 0, q);
    let k = digit_run_len(seg.as_slice());
    let ds = copy_range(seg.as_slice(), 0, k);
    match parse_u32_chars(ds.as_slice()) {
        Some(minor) => Some((major, minor)),
        None => None,
    }
}

/// Numeric value of every `.`-separated field of `core`.
fn field_values(core: &[char]) -> (r: Vec<u32>)
    ensures
        r@ == field_numbers(split_fields(core@, '.')),
{
    let mut nums: Vec<u32> = Vec::new();
    let mut rest = copy_range(core, 0, core.len());
    assert(core@.subrange(0, core@.len() as int) == core@);
    loop
        invariant_except_break
            field_numbers(split_fields(core@, '.')) == nums@ + field_numbers(
                split_fields(rest@, '.'),
            ),
        ensures
            nums@ == field_numbers(split_fields(core@, '.')),
        decreases rest@.len(),
    {
        let k = find_char(rest.as_slice(), '.');
        let seg = copy_range(rest.as_slice(), 0, k);
        let n = match parse_u32_chars(seg.as_slice()) {
            Some(n) => n,
            None => 0,
        };
        let ghost old_rest = rest@;
        let ghost old_nums = nums@;
        assert(n == (match parse_u32(seg@) {
            Some(n) => n,
            None => 0u32,
        }));
        nums.push(n);
        if k >= rest.len() {
            assert(seg@ == old_rest);
            assert(split_fields(old_rest, '.') == seq![old_rest]);
            assert(field_numbers(seq![old_rest]) =~= seq![n]);
            assert(nums@ =~= old_nums + seq![n]);
            break;
        }
        let next = copy_range(rest.as_slice(), k + 1, rest.len());
        assert(split_fields(old_rest, '.') == seq![seg@] + split_fields(next@, '.'));
        assert(field_numbers(seq![seg@] + split_fields(next@, '.')) =~= seq![n]
            + field_numbers(split_fields(next@, '.')));
        assert(nums@ =~= old_nums + seq![n]);
        rest = next;
    }
    nums
}

/// Numeric core and pre-release tag of `v`.
fn parts_of(v: &str) -> (r: (Vec<u32>, Option<Vec<char>>))
    ensures
        r.0@ == version_parts(v@).0,
        match (r.1, version_parts(v@).1) {
            (Some(x), Some(y)) => x@ == y,
            (None, None) => true,
            _ => false,
        },
{
    let cs = chars_of(v);
    let s = skip_leading(cs.as_slice(), 'v');
    let w = copy_range(cs.as_slice(), s, cs.len());
    let k = find_char(w.as_slice(), '-');
    let core = copy_range(w.as_slice(), 0, k);
    let nums = field_values(core.as_slice());
    if k < w.len() {
        (nums, Some(copy_range(w.as_slice(), k + 1, w.len())))
    } else {
        (nums, None)
    }
}

/// Order of numeric cores, as -1, 0 or 1.
fn nums_order(a: &[u32], b: &[u32]) -> (r: i8)
    ensures
        r as int == num_order(a@, b@, 0),
        -1 <= r <= 1,
{
    let n = if a.len() >= b.len() { a.len() } else { b.len() };
    let mut i: usize = 0;
    while i < n
        invariant
            n == max_len(a@, b@),
            i <= n,
            num_order(a@, b@, 0) == num_order(a@, b@, i as int),
        decreases n - i,
    {
        let x: u32 = if i < a.len() { a[i] } else { 0 };
        let y: u32 = if i < b.len() { b[i] } else { 0 };
        if x < y {
            return -1;
        }
        if x > y {
            return 1;
        }
        i += 1;
    }
    0
}

/// Lexicographic order of two tags, as -1, 0 or 1.
pub fn tags_order(x: &[char], y: &[char]) -> (r: i8)
    ensures
        r as int == lex_order(x@, y@),
        -1 <= r <= 1,
{
    let mut i: usize = 0;
    assert(x@.subrange(0, x@.len() as int) == x@);
    assert(y@.subrange(0, y@.len() as int) == y@);
    while i < x.len() && i < y.len()
        invariant
            i <= x@.len(),
            i <= y@.len(),
            lex_order(x@, y@) == lex_order(
                x@.subrange(i as int, x@.len() as int),
                y@.subrange(i as int, y@.len() as int),
            ),
        decreases x.len() - i,
    {
        let ghost xs = x@.subrange(i as int, x@.len() as int);
        let ghost ys = y@.subrange(i as int, y@.len() as int);
        assert(xs[0] == x@[i as int] && ys[0] == y@[i as int]);
        if x[i] < y[i] {
            return -1;
        }
        if x[i] > y[i] {
            return 1;
        }
        assert(xs.drop_first() == x@.subrange(i + 1, x@.len() as int));
        assert(ys.drop_first() == y@.subrange(i + 1, y@.len() as int));
        i += 1;
    }
    if i < x.len() {
        1
    } else if i < y.len() {
        -1
    } else {
        0
    }
}

/// Length of the run of `'0'` at the start of `v`.
fn zeros_run(v: &[char]) -> (i: usize)
    ensures
        i <= v@.len(),
        forall|k: int| 0 <= k < i ==> v@[k] == '0',
        i < v@.len() ==> v@[i as int] != '0',
{
    let mut i: usize = 0;
    while i < v.len() && v[i] == '0'
        invariant
            i <= v@.len(),
            forall|k: int| 0 <= k < i ==> v@[k] == '0',
        decreases v.len() - i,
    {
        i += 1;
    }
    i
}

/// Order of two digit strings by value, as -1, 0 or 1: leading zeros
/// dropped, the longer one is larger, equal lengths go digit by digit.
fn compare_digits(x: &[char], y: &[char]) -> (r: i8)
    requires
        all_digits(x@),
        all_digits(y@),
    ensures
        r as int == sign_order(digits_value(x@) as int, digits_value(y@) as int),
{
    let i = zeros_run(x);
    let j = zeros_run(y);
    let xs = copy_range(x, i, x.len());
    let ys = copy_range(y, j, y.len());
    proof {
        assert(x@ =~= x@.subrange(0, i as int) + xs@);
        assert(y@ =~= y@.subrange(0, j as int) + ys@);
        lemma_zeros_prefix(x@.subrange(0, i as int), xs@);
        lemma_zeros_prefix(y@.subrange(0, j as int), ys@);
        assert(all_digits(xs@)) by {
            assert forall|k: int| 0 <= k < xs@.len() implies is_digit(#[trigger] xs@[k]) by {
                assert(xs@[k] == x@[i + k]);
            }
        }
        assert(all_digits(ys@)) by {
            assert forall|k: int| 0 <= k < ys@.len() implies is_digit(#[trigger] ys@[k]) by {
                assert(ys@[k] == y@[j + k]);
            }
        }
    }
    if xs.len() < ys.len() {
        proof {
            assert(ys@[0] == y@[j as int]);
            lemma_shorter_is_smaller(xs@, ys@);
        }
        -1
    } else if xs.len() > ys.len() {
        proof {
            assert(xs@[0] == x@[i as int]);
            lemma_shorter_is_smaller(ys@, xs@);
        }
        1
    } else {
        proof {
            lemma_same_len_value_order(xs@, ys@);
        }
        tags_order(xs.as_slice(), ys.as_slice())
    }
}

/// Whether `x` is a numeric identifier.
fn numeric_ident(x: &[char]) -> (r: bool)
    ensures
        r == is_numeric(x@),
{
    if x.len() == 0 {
        return false;
    }
    let mut i: usize = 0;
    while i < x.len()
        invariant
            i <= x@.len(),
            forall|k: int| 0 <= k < i ==> is_digit(#[trigger] x@[k]),
        decreases x.len() - i,
    {
        if !('0' <= x[i] && x[i] <= '9') {
            return false;
        }
        i += 1;
    }
    true
}

/// Order of two pre-release identifiers, as -1, 0 or 1.
fn compare_ident(x: &[char], y: &[char]) -> (r: i8)
    ensures
        r as int == ident_order(x@, y@),
        -1 <= r <= 1,
{
    let nx = numeric_ident(x);
    let ny = numeric_ident(y);
    if nx && ny {
        compare_digits(x, y)
    } else if nx {
        -1
    } else if ny {
        1
    } else {
        tags_order(x, y)
    }
}

/// The `.`-separated identifiers of a pre-release tag.
fn idents_of(tag: &[char]) -> (r: Vec<Vec<char>>)
    ensures
        r@.map_values(|v: Vec<char>| v@) == split_fields(tag@, '.'),
{
    let mut parts: Vec<Vec<char>> = Vec::new();
    let mut rest = copy_range(tag, 0, tag.len());
    assert(tag@.subrange(0, tag@.len() as int) == tag@);
    loop
        invariant_except_break
            split_fields(tag@, '.') == parts@.map_values(|v: Vec<char>| v@) + split_fields(
                rest@,
                '.',
            ),
        ensures
            parts@.map_values(|v: Vec<char>| v@) == split_fields(tag@, '.'),
        decreases rest@.len(),
    {
        let k = find_char(rest.as_slice(), '.');
        let seg = copy_range(rest.as_slice(), 0, k);
        let ghost old_rest = rest@;
        let ghost old_parts = parts@;
        let ghost sv = seg@;
        parts.push(seg);
        assert(parts@.map_values(|v: Vec<char>| v@) =~= old_parts.map_values(|v: Vec<char>| v@)
            + seq![sv]);
        if k >= rest.len() {
            assert(sv == old_rest);
            assert(split_fields(old_rest, '.') == seq![old_rest]);
            break;
        }
        let next = copy_range(rest.as_slice(), k + 1, rest.len());
        assert(split_fields(old_rest, '.') == seq![sv] + split_fields(next@, '.'));
        rest = next;
    }
    parts
}

/// Order of two identifier lists, as -1, 0 or 1.
fn compare_idents(xs: &Vec<Vec<char>>, ys: &Vec<Vec<char>>) -> (r: i8)
    ensures
        r as int == idents_order(
            xs@.map_values(|v: Vec<char>| v@),
            ys@.map_values(|v: Vec<char>| v@),
        ),
        -1 <= r <= 1,
{
    let ghost xv = xs@.map_values(|v: Vec<char>| v@);
    let ghost yv = ys@.map_values(|v: Vec<char>| v@);
    assert(xv.subrange(0, xv.len() as int) == xv);
    assert(yv.subrange(0, yv.len() as int) == yv);
    let mut i: usize = 0;
    while i < xs.len() && i < ys.len()
        invariant
            xv == xs@.map_values(|v: Vec<char>| v@),
            yv == ys@.map_values(|v: Vec<char>| v@),
            i <= xs@.len(),
            i <= ys@.len(),
            idents_order(xv, yv) == idents_order(
                xv.subrange(i as int, xv.len() as int),
                yv.subrange(i as int, yv.len() as int),
            ),
        decreases xs.len() - i,
    {
        let ghost xr = xv.subrange(i as int, xv.len() as int);
        let ghost yr = yv.subrange(i as int, yv.len() as int);
        assert(xr[0] == xs@[i as int]@ && yr[0] == ys@[i as int]@);
        let c = compare_ident(xs[i].as_slice(), ys[i].as_slice());
        if c != 0 {
            return c;
        }
        assert(xr.drop_first() =~= xv.subrange(i + 1, xv.len() as int));
        assert(yr.drop_first() =~= yv.subrange(i + 1, yv.len() as int));
        i += 1;
    }
    if i < xs.len() {
        1
    } else if i < ys.len() {
        -1
    } else {
        0
    }
}

/// Order of two versions, as -1, 0 or 1.
fn version_order_value(a: &str, b: &str) -> (r: i8)
    ensures
        r as int == version_order(a@, b@),
        -1 <= r <= 1,
{
    let (an, ap) = parts_of(a);
    let (bn, bp) = parts_of(b);
    let c = nums_order(an.as_slice(), bn.as_slice());
    if c != 0 {
        return c;
    }
    match (ap, bp) {
        (None, None) => 0,
        (None, Some(_)) => 1,
        (Some(_), None) => -1,
        (Some(x), Some(y)) => {
            let xs = idents_of(x.as_slice());
            let ys = idents_of(y.as_slice());
            compare_idents(&xs, &ys)
        },
    }
}

/// Semantic version comparison with the pre-release rule: any `-suffix`
/// (beta, rc, ...) ranks below the release with the same numbers, and two
/// suffixes compare identifier by identifier, numeric ones by value
/// (`beta.10` above `beta.2`).
pub fn compare_versions(a: &str, b: &str) -> (r: Ordering)
    ensures
        ord_value(r) == version_order(a@, b@),
{
    let v = version_order_value(a, b);
    if v < 0 {
        Ordering::Less
    } else if v > 0 {
        Ordering::Greater
    } else {
        Ordering::Equal
    }
}


// ─── Laws ───────────────────────────────────────────────────────────────────

/// One step of `num_order`, valid at every position.
proof fn lemma_num_order_step(a: Seq<u32>, b: Seq<u32>, i: int)
    requires
        0 <= i,
    ensures
        num_order(a, b, i) == (if padded(a, i) < padded(b, i) {
            -1
        } else if padded(a, i) > padded(b, i) {
            1
        } else {
            num_order(a, b, i + 1)
        }),
{
}

proof fn lemma_num_order_refl(a: Seq<u32>, i: int)
    requires
        0 <= i,
    ensures
        num_order(a, a, i) == 0,
    decreases max_len(a, a) - i,
{
    if i < max_len(a, a) {
        lemma_num_order_refl(a, i + 1);
    }
}

proof fn lemma_num_order_antisym(a: Seq<u32>, b: Seq<u32>, i: int)
    requires
        0 <= i,
    ensures
        num_order(a, b, i) == -num_order(b, a, i),
    decreases max_len(a, b) - i,
{
    if i < max_len(a, b) {
        lemma_num_order_antisym(a, b, i + 1);
    }
}

spec fn max3(x: int, y: int, z: int) -> int {
    if x >= y && x >= z {
        x
    } else if y >= z {
        y
    } else {
        z
    }
}

proof fn lemma_num_order_trans(a: Seq<u32>, b: Seq<u32>, c: Seq<u32>, i: int)
    requires
        0 <= i,
        num_order(a, b, i) <= 0,
        num_order(b, c, i) <= 0,
    ensures
        num_order(a, c, i) <= 0,
    decreases max3(max_len(a, b), max_len(b, c), max_len(a, c)) - i,
{
    if i < max3(max_len(a, b), max_len(b, c), max_len(a, c)) {
        lemma_num_order_step(a, b, i);
        lemma_num_order_step(b, c, i);
        lemma_num_order_step(a, c, i);
        if padded(a, i) == padded(b, i) && padded(b, i) == padded(c, i) {
            lemma_num_order_trans(a, b, c, i + 1);
        }
    }
}

pub proof fn lemma_lex_order_refl(x: Seq<char>)
    ensures
        lex_order(x, x) == 0,
    decreases x.len(),
{
    if x.len() > 0 {
        lemma_lex_order_refl(x.drop_first());
    }
}

/// Equal order means equal sequences.
pub proof fn lemma_lex_order_eq(x: Seq<char>, y: Seq<char>)
    requires
        lex_order(x, y) == 0,
    ensures
        x == y,
    decreases x.len(),
{
    if x.len() > 0 && y.len() > 0 {
        lemma_lex_order_eq(x.drop_first(), y.drop_first());
        assert(x =~= seq![x[0]] + x.drop_first());
        assert(y =~= seq![y[0]] + y.drop_first());
    }
}

pub proof fn lemma_lex_order_antisym(x: Seq<char>, y: Seq<char>)
    ensures
        lex_order(x, y) == -lex_order(y, x),
    decreases x.len(),
{
    if x.len() > 0 && y.len() > 0 {
        lemma_lex_order_antisym(x.drop_first(), y.drop_first());
    }
}

pub proof fn lemma_lex_order_trans(x: Seq<char>, y: Seq<char>, z: Seq<char>)
    requires
        lex_order(x, y) <= 0,
        lex_order(y, z) <= 0,
    ensures
        lex_order(x, z) <= 0,
    decreases x.len(),
{
    if x.len() > 0 && y.len() > 0 && z.len() > 0 && x[0] == y[0] && y[0] == z[0] {
        lemma_lex_order_trans(x.drop_first(), y.drop_first(), z.drop_first());
    }
}

/// A run of zeros is worth nothing.
proof fn lemma_zeros_value(z: Seq<char>)
    requires
        forall|i: int| 0 <= i < z.len() ==> z[i] == '0',
    ensures
        digits_value(z) == 0,
    decreases z.len(),
{
    if z.len() > 0 {
        lemma_zeros_value(z.drop_last());
    }
}

/// Leading zeros add nothing to the value of a digit string.
proof fn lemma_zeros_prefix(z: Seq<char>, t: Seq<char>)
    requires
        forall|i: int| 0 <= i < z.len() ==> z[i] == '0',
    ensures
        digits_value(z + t) == digits_value(t),
    decreases t.len(),
{
    if t.len() == 0 {
        assert(z + t =~= z);
        lemma_zeros_value(z);
    } else {
        assert((z + t).drop_last() =~= z + t.drop_last());
        assert((z + t).last() == t.last());
        lemma_zeros_prefix(z, t.drop_last());
    }
}

/// Appending one character to each of two equally long sequences: the
/// old order decides unless it was a tie.
proof fn lemma_lex_push(x: Seq<char>, y: Seq<char>, a: char, b: char)
    requires
        x.len() == y.len(),
    ensures
        lex_order(x.push(a), y.push(b)) == (if lex_order(x, y) != 0 {
            lex_order(x, y)
        } else if a < b {
            -1
        } else if a > b {
            1
        } else {
            0
        }),
    decreases x.len(),
{
    let xa = x.push(a);
    let yb = y.push(b);
    assert(xa.len() > 0 && yb.len() > 0);
    if x.len() == 0 {
        assert(xa[0] == a && yb[0] == b);
        assert(xa.drop_first() =~= Seq::<char>::empty());
        assert(yb.drop_first() =~= Seq::<char>::empty());
        assert(lex_order(xa.drop_first(), yb.drop_first()) == 0);
    } else {
        assert(xa[0] == x[0] && yb[0] == y[0]);
        assert(xa.drop_first() =~= x.drop_first().push(a));
        assert(yb.drop_first() =~= y.drop_first().push(b));
        lemma_lex_push(x.drop_first(), y.drop_first(), a, b);
    }
}

/// For digit strings of one length, character order is value order.
proof fn lemma_same_len_value_order(x: Seq<char>, y: Seq<char>)
    requires
        x.len() == y.len(),
        all_digits(x),
        all_digits(y),
    ensures
        lex_order(x, y) == sign_order(digits_value(x) as int, digits_value(y) as int),
    decreases x.len(),
{
    if x.len() > 0 {
        let xp = x.drop_last();
        let yp = y.drop_last();
        assert(all_digits(xp)) by {
            assert forall|i: int| 0 <= i < xp.len() implies is_digit(#[trigger] xp[i]) by {
                assert(xp[i] == x[i]);
            }
        }
        assert(all_digits(yp)) by {
            assert forall|i: int| 0 <= i < yp.len() implies is_digit(#[trigger] yp[i]) by {
                assert(yp[i] == y[i]);
            }
        }
        lemma_same_len_value_order(xp, yp);
        assert(xp.push(x.last()) =~= x);
        assert(yp.push(y.last()) =~= y);
        lemma_lex_push(xp, yp, x.last(), y.last());
        assert(is_digit(x[x.len() - 1]));
        assert(is_digit(y[y.len() - 1]));
    }
}

/// A digit string is worth less than a longer one without a leading zero.
proof fn lemma_shorter_is_smaller(x: Seq<char>, y: Seq<char>)
    requires
        all_digits(x),
        all_digits(y),
        x.len() < y.len(),
        y[0] != '0',
    ensures
        digits_value(x) < digits_value(y),
{
    let z = Seq::new((y.len() - x.len()) as nat, |i: int| '0');
    let p = z + x;
    lemma_zeros_prefix(z, x);
    assert(all_digits(p)) by {
        assert forall|i: int| 0 <= i < p.len() implies is_digit(#[trigger] p[i]) by {
            if i >= z.len() {
                assert(p[i] == x[i - z.len()]);
            }
        }
    }
    assert(p[0] == '0');
    assert(is_digit(y[0]));
    lemma_same_len_value_order(p, y);
}

proof fn lemma_ident_refl(x: Seq<char>)
    ensures
        ident_order(x, x) == 0,
{
    lemma_lex_order_refl(x);
}

proof fn lemma_ident_antisym(x: Seq<char>, y: Seq<char>)
    ensures
        ident_order(x, y) == -ident_order(y, x),
{
    lemma_lex_order_antisym(x, y);
}

/// "Not above" is transitive, and a tie at the ends is a tie throughout.
proof fn lemma_ident_trans(x: Seq<char>, y: Seq<char>, z: Seq<char>)
    requires
        ident_order(x, y) <= 0,
        ident_order(y, z) <= 0,
    ensures
        ident_order(x, z) <= 0,
        ident_order(x, z) == 0 ==> ident_order(x, y) == 0 && ident_order(y, z) == 0,
{
    if !is_numeric(x) && !is_numeric(y) && !is_numeric(z) {
        lemma_lex_order_trans(x, y, z);
        if lex_order(x, z) == 0 {
            lemma_lex_order_eq(x, z);
            lemma_lex_order_antisym(x, y);
        }
    }
}

proof fn lemma_idents_refl(xs: Seq<Seq<char>>)
    ensures
        idents_order(xs, xs) == 0,
    decreases xs.len(),
{
    if xs.len() > 0 {
        lemma_ident_refl(xs[0]);
        lemma_idents_refl(xs.drop_first());
    }
}

proof fn lemma_idents_antisym(xs: Seq<Seq<char>>, ys: Seq<Seq<char>>)
    ensures
        idents_order(xs, ys) == -idents_order(ys, xs),
    decreases xs.len(),
{
    if xs.len() > 0 && ys.len() > 0 {
        lemma_ident_antisym(xs[0], ys[0]);
        lemma_idents_antisym(xs.drop_first(), ys.drop_first());
    }
}

proof fn lemma_idents_trans(xs: Seq<Seq<char>>, ys: Seq<Seq<char>>, zs: Seq<Seq<char>>)
    requires
        idents_order(xs, ys) <= 0,
        idents_order(ys, zs) <= 0,
    ensures
        idents_order(xs, zs) <= 0,
    decreases xs.len(),
{
    if xs.len() > 0 && ys.len() > 0 && zs.len() > 0 {
        lemma_ident_trans(xs[0], ys[0], zs[0]);
        if ident_order(xs[0], zs[0]) == 0 {
            lemma_idents_trans(xs.drop_first(), ys.drop_first(), zs.drop_first());
        }
    }
}

proof fn lemma_pre_order_refl(a: Option<Seq<char>>)
    ensures
        pre_order(a, a) == 0,
{
    if let Some(x) = a {
        lemma_idents_refl(split_fields(x, '.'));
    }
}

proof fn lemma_pre_order_antisym(a: Option<Seq<char>>, b: Option<Seq<char>>)
    ensures
        pre_order(a, b) == -pre_order(b, a),
{
    if let (Some(x), Some(y)) = (a, b) {
        lemma_idents_antisym(split_fields(x, '.'), split_fields(y, '.'));
    }
}

proof fn lemma_pre_order_trans(a: Option<Seq<char>>, b: Option<Seq<char>>, c: Option<Seq<char>>)
    requires
        pre_order(a, b) <= 0,
        pre_order(b, c) <= 0,
    ensures
        pre_order(a, c) <= 0,
{
    if let (Some(x), Some(y), Some(z)) = (a, b, c) {
        lemma_idents_trans(split_fields(x, '.'), split_fields(y, '.'), split_fields(z, '.'));
    }
}

/// Every version compares equal to itself.
pub proof fn law_compare_reflexive(a: Seq<char>)
    ensures
        version_order(a, a) == 0,
{
    let (n, p) = version_parts(a);
    lemma_num_order_refl(n, 0);
    lemma_pre_order_refl(p);
}

/// Swapping the arguments reverses the comparison.
pub proof fn law_compare_antisymmetric(a: Seq<char>, b: Seq<char>)
    ensures
        version_order(a, b) == -version_order(b, a),
{
    let (an, ap) = version_parts(a);
    let (bn, bp) = version_parts(b);
    lemma_num_order_antisym(an, bn, 0);
    lemma_pre_order_antisym(ap, bp);
}

/// "Not newer than" is transitive.
pub proof fn law_compare_transitive(a: Seq<char>, b: Seq<char>, c: Seq<char>)
    requires
        version_order(a, b) <= 0,
        version_order(b, c) <= 0,
    ensures
        version_order(a, c) <= 0,
{
    let (an, ap) = version_parts(a);
    let (bn, bp) = version_parts(b);
    let (cn, cp) = version_parts(c);
    lemma_num_order_trans(an, bn, cn, 0);
    lemma_num_order_antisym(an, bn, 0);
    lemma_num_order_antisym(bn, cn, 0);
    lemma_num_order_antisym(an, cn, 0);
    if num_order(an, cn, 0) == 0 {
        lemma_num_order_trans(cn, an, bn, 0);
        lemma_num_order_trans(bn, cn, an, 0);
        lemma_pre_order_trans(ap, bp, cp);
    }
}

/// The numeric core holds the value of every whole `.`-separated field: a
/// field of digits counts as the number it spells, all of its digits
/// included (`0.10.0` has 10 as its second field, above the 9 of `0.9.0`).
pub proof fn law_fields_by_whole_value(v: Seq<char>, i: int)
    requires
        v.len() > 0,
        v[0] != 'v',
        !v.contains('-'),
        0 <= i < split_fields(v, '.').len(),
        is_numeric(split_fields(v, '.')[i]),
        digits_value(split_fields(v, '.')[i]) <= u32::MAX,
    ensures
        version_parts(v).0.len() == split_fields(v, '.').len(),
        version_parts(v).0[i] == digits_value(split_fields(v, '.')[i]),
        version_parts(v).1 is None,
{
    assert(strip_leading(v, 'v') == v);
    assert forall|k: int| 0 <= k < v.len() implies v[k] != '-' by {
        if v[k] == '-' {
            assert(v.contains('-'));
        }
    }
    lemma_char_pos(v, '-', v.len() as int);
    assert(v.subrange(0, v.len() as int) == v);
    let f = split_fields(v, '.')[i];
    assert(is_digit(f[0]));
}

/// Two versions that are each one number compare as those numbers do.
pub proof fn law_number_versions_by_value(x: Seq<char>, y: Seq<char>)
    requires
        is_numeric(x),
        is_numeric(y),
        digits_value(x) <= u32::MAX,
        digits_value(y) <= u32::MAX,
    ensures
        version_order(x, y) == sign_order(digits_value(x) as int, digits_value(y) as int),
{
    assert(is_digit(x[0]) && is_digit(y[0]));
    assert forall|k: int| 0 <= k < x.len() implies x[k] != '.' && x[k] != '-' by {
        assert(is_digit(x[k]));
    }
    assert forall|k: int| 0 <= k < y.len() implies y[k] != '.' && y[k] != '-' by {
        assert(is_digit(y[k]));
    }
    lemma_char_pos(x, '.', x.len() as int);
    lemma_char_pos(y, '.', y.len() as int);
    assert(split_fields(x, '.') == seq![x]);
    assert(split_fields(y, '.') == seq![y]);
    assert(!x.contains('-'));
    assert(!y.contains('-'));
    law_fields_by_whole_value(x, 0);
    law_fields_by_whole_value(y, 0);
    let (xn, xp) = version_parts(x);
    let (yn, yp) = version_parts(y);
    assert(num_order(xn, yn, 1) == 0);
}

/// Versions `x.y` and `x.z` with the same number first compare as the
/// numbers `y` and `z` do (`0.10` ranks above `0.9`).
pub proof fn law_second_field_by_value(x: Seq<char>, y: Seq<char>, z: Seq<char>)
    requires
        is_numeric(x),
        is_numeric(y),
        is_numeric(z),
        digits_value(x) <= u32::MAX,
        digits_value(y) <= u32::MAX,
        digits_value(z) <= u32::MAX,
    ensures
        version_order(x + seq!['.'] + y, x + seq!['.'] + z) == sign_order(
            digits_value(y) as int,
            digits_value(z) as int,
        ),
{
    lemma_two_fields(x, y);
    lemma_two_fields(x, z);
    let a = x + seq!['.'] + y;
    let b = x + seq!['.'] + z;
    let (an, ap) = version_parts(a);
    let (bn, bp) = version_parts(b);
    assert(an.len() == 2 && bn.len() == 2 && max_len(an, bn) == 2);
    assert(padded(an, 0) == padded(bn, 0));
    assert(padded(an, 1) == digits_value(y) && padded(bn, 1) == digits_value(z));
    assert(num_order(an, bn, 2) == 0);
    lemma_num_order_step(an, bn, 1);
    lemma_num_order_step(an, bn, 0);
    assert(ap is None && bp is None);
}

/// `x.y` for numbers `x` and `y`: its fields, their values, no tag.
proof fn lemma_two_fields(x: Seq<char>, y: Seq<char>)
    requires
        is_numeric(x),
        is_numeric(y),
        digits_value(x) <= u32::MAX,
        digits_value(y) <= u32::MAX,
    ensures
        split_fields(x + seq!['.'] + y, '.') == seq![x, y],
        version_parts(x + seq!['.'] + y).0 == seq![digits_value(x) as u32, digits_value(y) as u32],
        version_parts(x + seq!['.'] + y).1 is None,
{
    let v = x + seq!['.'] + y;
    assert forall|k: int| 0 <= k < x.len() implies x[k] != '.' && x[k] != '-' by {
        assert(is_digit(x[k]));
    }
    assert forall|k: int| 0 <= k < y.len() implies y[k] != '.' && y[k] != '-' by {
        assert(is_digit(y[k]));
    }
    assert forall|k: int| 0 <= k < x.len() implies v[k] != '.' by {
        assert(v[k] == x[k]);
    }
    assert(v[x.len() as int] == '.');
    lemma_char_pos(v, '.', x.len() as int);
    lemma_char_pos(y, '.', y.len() as int);
    assert(v.subrange(0, x.len() as int) =~= x);
    assert(v.subrange(x.len() as int + 1, v.len() as int) =~= y);
    assert(split_fields(y, '.') == seq![y]);
    assert(split_fields(v, '.') =~= seq![x, y]);
    assert(!v.contains('-')) by {
        if v.contains('-') {
            let k = choose|k: int| 0 <= k < v.len() && v[k] == '-';
            if k < x.len() {
                assert(v[k] == x[k]);
            } else if k > x.len() {
                assert(v[k] == y[k - x.len() - 1]);
            }
        }
    }
    assert(is_digit(x[0]));
    assert(v[0] == x[0]);
    law_fields_by_whole_value(v, 0);
    law_fields_by_whole_value(v, 1);
    assert(version_parts(v).0 =~= seq![digits_value(x) as u32, digits_value(y) as u32]);
}

/// A leading `v` changes neither comparison nor major/minor parsing.
pub proof fn law_v_prefix_ignored(a: Seq<char>, b: Seq<char>)
    ensures
        version_order(seq!['v'] + a, b) == version_order(a, b),
        major_minor(seq!['v'] + a) == major_minor(a),
{
    let va = seq!['v'] + a;
    assert(va.drop_first() == a);
    assert(strip_leading(va, 'v') == strip_leading(a, 'v'));
}

proof fn lemma_strip_leading_concat(s: Seq<char>, tail: Seq<char>)
    requires
        tail.len() > 0,
        tail[0] != 'v',
    ensures
        strip_leading(s + tail, 'v') == strip_leading(s, 'v') + tail,
    decreases s.len(),
{
    if s.len() > 0 {
        if s[0] == 'v' {
            assert((s + tail).drop_first() == s.drop_first() + tail);
            lemma_strip_leading_concat(s.drop_first(), tail);
        }
    } else {
        assert(s + tail == tail);
    }
}

proof fn lemma_strip_leading_suffix(s: Seq<char>)
    ensures
        exists|k: int| 0 <= k <= s.len() && strip_leading(s, 'v') == s.subrange(k, s.len() as int),
    decreases s.len(),
{
    if s.len() > 0 && s[0] == 'v' {
        lemma_strip_leading_suffix(s.drop_first());
        let k = choose|k: int|
            0 <= k <= s.drop_first().len() && strip_leading(s.drop_first(), 'v')
                == s.drop_first().subrange(k, s.drop_first().len() as int);
        assert(s.drop_first().subrange(k, s.drop_first().len() as int) == s.subrange(
            k + 1,
            s.len() as int,
        ));
    } else {
        assert(s.subrange(0, s.len() as int) == s);
    }
}

/// A pre-release ranks below the release with the same numbers:
/// `core-pre` < `core` whenever `core` has no `-` of its own.
pub proof fn law_prerelease_precedes_release(core: Seq<char>, pre: Seq<char>)
    requires
        !core.contains('-'),
    ensures
        version_order(core + seq!['-'] + pre, core) == -1,
{
    let tail = seq!['-'] + pre;
    assert(core + seq!['-'] + pre == core + tail);
    lemma_strip_leading_concat(core, tail);
    let w = strip_leading(core, 'v');
    lemma_strip_leading_suffix(core);
    assert(!w.contains('-')) by {
        let k = choose|k: int| 0 <= k <= core.len() && w == core.subrange(k, core.len() as int);
        if w.contains('-') {
            let j = choose|j: int| 0 <= j < w.len() && w[j] == '-';
            assert(core[k + j] == '-');
        }
    }
    let wt = w + tail;
    assert forall|m: int| 0 <= m < w.len() implies wt[m] != '-' by {
        assert(wt[m] == w[m]);
        if w[m] == '-' {
            assert(w.contains('-'));
        }
    }
    lemma_char_pos(wt, '-', w.len() as int);
    assert forall|m: int| 0 <= m < w.len() implies w[m] != '-' by {
        if w[m] == '-' {
            assert(w.contains('-'));
        }
    }
    lemma_char_pos(w, '-', w.len() as int);
    assert(wt.subrange(0, w.len() as int) == w);
    assert(wt.subrange(w.len() as int + 1, wt.len() as int) == pre);
    assert(w.subrange(0, w.len() as int) == w);
    let n = field_numbers(split_fields(w, '.'));
    lemma_num_order_refl(n, 0);
}

} // verus!
