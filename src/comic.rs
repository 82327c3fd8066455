//! Comic metadata: where it is fetched from and the line shown above the picture.
use vstd::prelude::*;
use crate::braille::push_char;

verus! {

/// The metadata of one comic that the viewer shows.
pub struct ComicInfo {
    pub num: u32,
    pub year: String,
    pub month: String,
    pub day: String,
    pub title: String,
    /// Address of the comic's picture.
    pub img: String,
}

/// Relies on String::push_str: appends the characters of `t`.
#[verifier::external_body]
fn push_str(s: &mut String, t: &str)
    ensures
        final(s)@ == old(s)@ + t@,
{
    s.push_str(t)
}

/// The decimal digit character for `d` (below ten).
pub open spec fn digit_char(d: nat) -> char {
    (48 + d) as u32 as char
}

/// The decimal representation of `n`, without leading zeros.
pub open spec fn decimal(n: nat) -> Seq<char>
    decreases n,
{
    if n < 10 {
        seq![digit_char(n)]
    } else {
        decimal(n / 10).push(digit_char(n % 10))
    }
}

/// Appends the decimal digits of `n` to `s`.
pub fn push_decimal(s: &mut String, n: u32)
    ensures
        final(s)@ == old(s)@ + decimal(n as nat),
    decreases n,
{
    if n >= 10 {
        push_decimal(s, n / 10);
    }
    let d = (n % 10) as u8;
    push_char(s, (48u8 + d) as char);
    assert(final(s)@ =~= old(s)@ + decimal(n as nat));
}

/// Address of the metadata of comic `index`; an empty index names the latest comic.
pub fn metadata_url(index: &str) -> (r: String)
    ensures
        r@ == "http://xkcd.com/"@ + index@ + "/info.0.json"@,
{
    let mut s = String::new();
    push_str(&mut s, "http://xkcd.com/");
    push_str(&mut s, index);
    push_str(&mut s, "/info.0.json");
    assert(s@ =~= "http://xkcd.com/"@ + index@ + "/info.0.json"@);
    s
}

/// The line shown above the picture: `#<num> (<year>-<month>-<day>): <title>`.
pub fn header_line(info: &ComicInfo) -> (r: String)
    ensures
        r@ == seq!['#'] + decimal(info.num as nat) + " ("@ + info.year@ + "-"@ + info.month@
            + "-"@ + info.day@ + "): "@ + info.title@,
{
    let mut s = String::new();
    push_char(&mut s, '#');
    push_decimal(&mut s, info.num);
    push_str(&mut s, " (");
    push_str(&mut s, info.year.as_str());
    push_str(&mut s, "-");
    push_str(&mut s, info.month.as_str());
    push_str(&mut s, "-");
    push_str(&mut s, info.day.as_str());
    push_str(&mut s, "): ");
    push_str(&mut s, info.title.as_str());
    assert(s@ =~= seq!['#'] + decimal(info.num as nat) + " ("@ + info.year@ + "-"@ + info.month@
        + "-"@ + info.day@ + "): "@ + info.title@);
    s
}

} // verus!
