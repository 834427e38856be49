//! Character-level helpers: recognising text files, ordering titles and
//! writing numbers and status lines.

use vstd::prelude::*;

verus! {

/// The extension, dot included, that marks a file as a document.
pub open spec fn text_suffix() -> Seq<char> {
    seq!['.', 't', 'x', 't']
}

/// A file name names a document when it ends in `.txt` and something stands
/// before that suffix (a bare `.txt` is a hidden file without extension).
pub open spec fn is_text_name(name: Seq<char>) -> bool {
    name.len() > 4 && name.subrange(name.len() - 4, name.len() as int) == text_suffix()
}

/// The title of a document: its file name without the extension.
pub open spec fn title_spec(name: Seq<char>) -> Seq<char> {
    name.subrange(0, name.len() - 4)
}

/// The title of the document that `name` names, or `None` when `name` is not
/// the name of a text file.
pub fn title_of(name: &str) -> (r: Option<String>)
    ensures
        r is Some <==> is_text_name(name@),
        r matches Some(t) ==> t@ == title_spec(name@),
{
    let n = name.unicode_len();
    if n <= 4 {
        return None;
    }
    let a = name.get_char(n - 4);
    let b = name.get_char(n - 3);
    let c = name.get_char(n - 2);
    let d = name.get_char(n - 1);
    if a == '.' && b == 't' && c == 'x' && d == 't' {
        proof {
            assert(name@.subrange(n - 4, n as int) =~= text_suffix());
        }
        Some(String::from_str(name.substring_char(0, n - 4)))
    } else {
        proof {
            let s = name@.subrange(n - 4, n as int);
            if s == text_suffix() {
                assert(s[0] == a && s[1] == b && s[2] == c && s[3] == d);
            }
        }
        None
    }
}

/// The decimal digit for `d < 10`.
pub open spec fn digit_char(d: nat) -> char {
    if d == 0 { '0' }
    else if d == 1 { '1' }
    else if d == 2 { '2' }
    else if d == 3 { '3' }
    else if d == 4 { '4' }
    else if d == 5 { '5' }
    else if d == 6 { '6' }
    else if d == 7 { '7' }
    else if d == 8 { '8' }
    else { '9' }
}

/// The decimal notation of `n`, without leading zeros.
pub open spec fn decimal_spec(n: nat) -> Seq<char>
    decreases n,
{
    if n < 10 {
        seq![digit_char(n)]
    } else {
        decimal_spec(n / 10) + seq![digit_char(n % 10)]
    }
}

fn digit_str(d: usize) -> (r: &'static str)
    requires
        d < 10,
    ensures
        r@ == seq![digit_char(d as nat)],
{
    proof {
        reveal_strlit("0");
        reveal_strlit("1");
        reveal_strlit("2");
        reveal_strlit("3");
        reveal_strlit("4");
        reveal_strlit("5");
        reveal_strlit("6");
        reveal_strlit("7");
        reveal_strlit("8");
        reveal_strlit("9");
    }
    let r = if d == 0 { "0" }
    else if d == 1 { "1" }
    else if d == 2 { "2" }
    else if d == 3 { "3" }
    else if d == 4 { "4" }
    else if d == 5 { "5" }
    else if d == 6 { "6" }
    else if d == 7 { "7" }
    else if d == 8 { "8" }
    else { "9" };
    assert(r@ =~= seq![digit_char(d as nat)]);
    r
}

/// Writes `n` in decimal.
pub fn decimal(n: usize) -> (r: String)
    ensures
        r@ == decimal_spec(n as nat),
    decreases n,
{
    if n < 10 {
        String::from_str(digit_str(n))
    } else {
        let mut s = decimal(n / 10);
        s.append(digit_str(n % 10));
        s
    }
}

/// Byte-wise (code point) lexicographic order on titles: `a` comes no later
/// than `b`.
pub open spec fn title_le(a: Seq<char>, b: Seq<char>) -> bool
    decreases a.len(),
{
    if a.len() == 0 {
        true
    } else if b.len() == 0 {
        false
    } else if (a[0] as u32) != (b[0] as u32) {
        (a[0] as u32) < (b[0] as u32)
    } else {
        title_le(a.drop_first(), b.drop_first())
    }
}

/// Any two titles are ordered one way or the other.
pub proof fn lemma_title_le_total(a: Seq<char>, b: Seq<char>)
    ensures
        title_le(a, b) || title_le(b, a),
    decreases a.len(),
{
    if a.len() > 0 && b.len() > 0 && (a[0] as u32) == (b[0] as u32) {
        lemma_title_le_total(a.drop_first(), b.drop_first());
    }
}

/// The order on titles is transitive.
pub proof fn lemma_title_le_transitive(a: Seq<char>, b: Seq<char>, c: Seq<char>)
    requires
        title_le(a, b),
        title_le(b, c),
    ensures
        title_le(a, c),
    decreases a.len(),
{
    if a.len() > 0 && b.len() > 0 && c.len() > 0 && (a[0] as u32) == (b[0] as u32) && (b[0] as u32)
        == (c[0] as u32) {
        lemma_title_le_transitive(a.drop_first(), b.drop_first(), c.drop_first());
    }
}

/// Compares two titles in byte-wise lexicographic order.
pub fn title_le_exec(a: &str, b: &str) -> (r: bool)
    ensures
        r == title_le(a@, b@),
{
    let na = a.unicode_len();
    let nb = b.unicode_len();
    let mut i: usize = 0;
    assert(a@.skip(0) =~= a@ && b@.skip(0) =~= b@);
    while i < na && i < nb
        invariant
            na == a@.len(),
            nb == b@.len(),
            i <= na,
            i <= nb,
            title_le(a@, b@) == title_le(a@.skip(i as int), b@.skip(i as int)),
        decreases na - i,
    {
        let ca = a.get_char(i);
        let cb = b.get_char(i);
        let ghost sa = a@.skip(i as int);
        let ghost sb = b@.skip(i as int);
        assert(sa[0] == ca && sb[0] == cb);
        if (ca as u32) != (cb as u32) {
            return (ca as u32) < (cb as u32);
        }
        assert(sa.drop_first() =~= a@.skip(i + 1));
        assert(sb.drop_first() =~= b@.skip(i + 1));
        i = i + 1;
    }
    i == na
}

/// What `str::to_uppercase` makes of a title.
pub uninterp spec fn upper_of(s: Seq<char>) -> Seq<char>;

/// Relies on str::to_uppercase: the result is a function of the characters
/// alone.
#[verifier::external_body]
fn uppercase(s: &str) -> (r: String)
    ensures
        r@ == upper_of(s@),
{
    s.to_uppercase()
}

/// The status line for the document at 1-based `position` out of `total`,
/// whose title is already upper-cased: ` TITLE (position/total)`.
pub open spec fn status_spec(upper: Seq<char>, position: nat, total: nat) -> Seq<char> {
    seq![' '] + upper + seq![' ', '('] + decimal_spec(position) + seq!['/'] + decimal_spec(total)
        + seq![')']
}

/// Lays out the status line from a title that is already upper-cased.
pub fn format_status(upper: &str, position: usize, total: usize) -> (r: String)
    ensures
        r@ == status_spec(upper@, position as nat, total as nat),
{
    proof {
        reveal_strlit(" ");
        reveal_strlit(" (");
        reveal_strlit("/");
        reveal_strlit(")");
    }
    let mut s = String::from_str(" ");
    s.append(upper);
    s.append(" (");
    let p = decimal(position);
    s.append(p.as_str());
    s.append("/");
    let t = decimal(total);
    s.append(t.as_str());
    s.append(")");
    assert(s@ =~= status_spec(upper@, position as nat, total as nat));
    s
}

/// The status line of the document titled `title` at 0-based `index` in a
/// collection of `total` documents.
pub fn status_line(title: &str, index: usize, total: usize) -> (r: String)
    requires
        index < total,
    ensures
        r@ == status_spec(upper_of(title@), index as nat + 1, total as nat),
{
    let upper = uppercase(title);
    format_status(upper.as_str(), index + 1, total)
}

} // verus!
