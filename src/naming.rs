//! Names of the files that a session writes.
use vstd::prelude::*;

use crate::session::{PathView, SessionFormat, SessionPath};
use crate::text::string_of;

verus! {

pub open spec fn digit_char(d: nat) -> char {
    ((d + 48) as u8) as char
}

/// The decimal digits of `n`, without leading zeros.
pub open spec fn decimal(n: nat) -> Seq<char>
    decreases n,
{
    if n < 10 {
        seq![digit_char(n)]
    } else {
        decimal(n / 10).push(digit_char(n % 10))
    }
}

/// The decimal digits of `n`, with zeros in front up to five digits.
pub open spec fn padded(n: nat) -> Seq<char> {
    let d = decimal(n);
    if d.len() >= 5 {
        d
    } else {
        Seq::new((5 - d.len()) as nat, |i: int| '0') + d
    }
}

pub open spec fn extension(f: SessionFormat) -> Seq<char> {
    match f {
        SessionFormat::BMP => ".bmp"@,
        SessionFormat::PNG => ".png"@,
        SessionFormat::ProtoBuf => ".todo"@,
    }
}

/// The name of the image of instance `num`.
pub open spec fn image_name_of(num: nat, f: SessionFormat) -> Seq<char> {
    padded(num) + extension(f)
}

pub open spec fn directory_of(p: PathView) -> Seq<char> {
    match p {
        PathView::Replace(d) => d,
        PathView::Append(d) => d,
    }
}

fn push_decimal(n: usize, out: &mut Vec<char>)
    ensures
        final(out)@ == old(out)@ + decimal(n as nat),
    decreases n,
{
    if n >= 10 {
        push_decimal(n / 10, out);
    }
    let d = (n % 10) as u8;
    out.push((d + 48) as char);
    assert(final(out)@ =~= old(out)@ + decimal(n as nat));
}

/// The name of the image file of instance `num`: the number with five digits at
/// least, then the extension of the format.
pub fn image_name(num: usize, format: SessionFormat) -> (r: String)
    ensures
        r@ == image_name_of(num as nat, format),
{
    let mut digits: Vec<char> = Vec::new();
    push_decimal(num, &mut digits);
    assert(digits@ =~= decimal(num as nat));
    let mut name: Vec<char> = Vec::new();
    let mut k: usize = digits.len();
    while k < 5
        invariant
            digits@.len() <= k,
            k <= 5 || k == digits@.len(),
            name@ =~= Seq::new((k - digits@.len()) as nat, |i: int| '0'),
        decreases 5 - k,
    {
        name.push('0');
        k += 1;
    }
    let mut i: usize = 0;
    let ghost pad = name@;
    while i < digits.len()
        invariant
            i <= digits@.len(),
            name@ == pad + digits@.take(i as int),
        decreases digits@.len() - i,
    {
        name.push(digits[i]);
        assert(digits@.take(i + 1) =~= digits@.take(i as int).push(digits@[i as int]));
        i += 1;
    }
    assert(digits@.take(digits@.len() as int) =~= digits@);
    assert(name@ =~= padded(num as nat));
    let ext = match format {
        SessionFormat::BMP => ".bmp",
        SessionFormat::PNG => ".png",
        SessionFormat::ProtoBuf => ".todo",
    };
    string_of(&name).concat(ext)
}

/// The directory that a session writes its images to.
pub fn output_directory(path: &SessionPath) -> (r: &String)
    ensures
        r@ == directory_of(path@),
{
    match path {
        SessionPath::Replace(d) => d,
        SessionPath::Append(d) => d,
    }
}

/// The path of the image file of instance `num`: `<directory>/<name>`.
pub fn image_path(path: &SessionPath, num: usize, format: SessionFormat) -> (r: String)
    ensures
        r@ == directory_of(path@) + "/"@ + image_name_of(num as nat, format),
{
    let dir = output_directory(path).clone();
    let name = image_name(num, format);
    dir.concat("/").concat(name.as_str())
}

} // verus!
