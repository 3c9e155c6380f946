//! The one-line value grammars: distributions, output policy, style, format, size and
//! projection.
use vstd::prelude::*;

use crate::number::{
    deviation_literal, is_deviation_literal, is_real_literal, parse_unsigned, real_literal,
    unsigned_of,
};
use crate::session::{
    AspectView, DistributionView, PathView, ProjectionView, SessionAspect, SessionDistribution,
    SessionFormat, SessionPath, SessionProjection, SessionStyle,
};
use crate::text::{has_prefix, same_text, slice, split, split_at_char, starts_with, string_of, trim, trimmed};

verus! {

/// `v` after the word `w` that begins it, trimmed.
pub open spec fn after(v: Seq<char>, w: Seq<char>) -> Seq<char> {
    trim(v.skip(w.len() as int))
}

fn rest_after(v: &Vec<char>, w: &str) -> (r: Vec<char>)
    requires
        has_prefix(v@, w@),
    ensures
        r@ == after(v@, w@),
{
    let n = w.unicode_len();
    let rest = slice(v, n, v.len());
    assert(rest@ =~= v@.skip(n as int));
    trimmed(&rest)
}

/// A distribution: a real literal, or `normal` with a mean and a deviation that is
/// finite and not negative, separated by one comma.
pub open spec fn distribution_of(v: Seq<char>) -> Option<DistributionView> {
    if has_prefix(v, "normal"@) {
        let parts = split(after(v, "normal"@), ',');
        if parts.len() == 2 && is_real_literal(parts[0]) && is_deviation_literal(parts[1]) {
            Some(DistributionView::Normal(parts[0], parts[1]))
        } else {
            None
        }
    } else if is_real_literal(v) {
        Some(DistributionView::Constant(v))
    } else {
        None
    }
}

pub fn parse_distribution(v: &Vec<char>) -> (r: Option<SessionDistribution>)
    ensures
        match r {
            Some(d) => distribution_of(v@) == Some(d@),
            None => distribution_of(v@) is None,
        },
{
    if starts_with(v, "normal") {
        let parts = split_at_char(&rest_after(v, "normal"), ',');
        if parts.len() == 2 && real_literal(&parts[0]) && deviation_literal(&parts[1]) {
            Some(SessionDistribution::Normal(string_of(&parts[0]), string_of(&parts[1])))
        } else {
            None
        }
    } else if real_literal(v) {
        Some(SessionDistribution::Constant(string_of(v)))
    } else {
        None
    }
}

/// `replace <dir>` or `append <dir>`.
pub open spec fn path_of(v: Seq<char>) -> Option<PathView> {
    if has_prefix(v, "replace"@) {
        Some(PathView::Replace(after(v, "replace"@)))
    } else if has_prefix(v, "append"@) {
        Some(PathView::Append(after(v, "append"@)))
    } else {
        None
    }
}

pub fn parse_path(v: &Vec<char>) -> (r: Option<SessionPath>)
    ensures
        match r {
            Some(p) => path_of(v@) == Some(p@),
            None => path_of(v@) is None,
        },
{
    if starts_with(v, "replace") {
        Some(SessionPath::Replace(string_of(&rest_after(v, "replace"))))
    } else if starts_with(v, "append") {
        Some(SessionPath::Append(string_of(&rest_after(v, "append"))))
    } else {
        None
    }
}

pub open spec fn style_of(v: Seq<char>) -> Option<SessionStyle> {
    if v == "still"@ {
        Some(SessionStyle::Still)
    } else if v == "still_depth"@ {
        Some(SessionStyle::StillDepth)
    } else if v == "moving"@ {
        Some(SessionStyle::Moving)
    } else if v == "moving_depth"@ {
        Some(SessionStyle::MovingDepth)
    } else {
        None
    }
}

pub fn parse_style(v: &Vec<char>) -> (r: Option<SessionStyle>)
    ensures
        r == style_of(v@),
{
    if same_text(v, "still") {
        Some(SessionStyle::Still)
    } else if same_text(v, "still_depth") {
        Some(SessionStyle::StillDepth)
    } else if same_text(v, "moving") {
        Some(SessionStyle::Moving)
    } else if same_text(v, "moving_depth") {
        Some(SessionStyle::MovingDepth)
    } else {
        None
    }
}

pub open spec fn format_of(v: Seq<char>) -> Option<SessionFormat> {
    if v == "bmp"@ {
        Some(SessionFormat::BMP)
    } else if v == "png"@ {
        Some(SessionFormat::PNG)
    } else if v == "protobuf"@ {
        Some(SessionFormat::ProtoBuf)
    } else {
        None
    }
}

pub fn parse_format(v: &Vec<char>) -> (r: Option<SessionFormat>)
    ensures
        r == format_of(v@),
{
    if same_text(v, "bmp") {
        Some(SessionFormat::BMP)
    } else if same_text(v, "png") {
        Some(SessionFormat::PNG)
    } else if same_text(v, "protobuf") {
        Some(SessionFormat::ProtoBuf)
    } else {
        None
    }
}

/// `<width>,<height>`; pieces after a second comma are not read.
pub open spec fn size_of(v: Seq<char>) -> Option<(usize, usize)> {
    let c = split(v, ',');
    if c.len() >= 2 && unsigned_of(c[0]) is Some && unsigned_of(c[1]) is Some {
        Some((unsigned_of(c[0]).unwrap(), unsigned_of(c[1]).unwrap()))
    } else {
        None
    }
}

pub fn parse_size(v: &Vec<char>) -> (r: Option<(usize, usize)>)
    ensures
        r == size_of(v@),
{
    let c = split_at_char(v, ',');
    if c.len() < 2 {
        return None;
    }
    match (parse_unsigned(&c[0]), parse_unsigned(&c[1])) {
        (Some(x), Some(y)) => Some((x, y)),
        _ => None,
    }
}

/// A real literal, or `<num>/<den>`; pieces after a second `/` are not read.
pub open spec fn aspect_of(c: Seq<char>) -> Option<AspectView> {
    let v = split(c, '/');
    if v.len() >= 2 {
        if is_real_literal(v[0]) && is_real_literal(v[1]) {
            Some(AspectView::Ratio(v[0], v[1]))
        } else {
            None
        }
    } else if is_real_literal(c) {
        Some(AspectView::Value(c))
    } else {
        None
    }
}

fn parse_aspect(c: &Vec<char>) -> (r: Option<SessionAspect>)
    ensures
        match r {
            Some(a) => aspect_of(c@) == Some(a@),
            None => aspect_of(c@) is None,
        },
{
    let v = split_at_char(c, '/');
    if v.len() >= 2 {
        if real_literal(&v[0]) && real_literal(&v[1]) {
            Some(SessionAspect::Ratio(string_of(&v[0]), string_of(&v[1])))
        } else {
            None
        }
    } else if real_literal(c) {
        Some(SessionAspect::Value(string_of(c)))
    } else {
        None
    }
}

/// `perspective <fovy>,<aspect>,<near>,<far>`.
pub open spec fn projection_of(v: Seq<char>) -> Option<ProjectionView> {
    if has_prefix(v, "perspective"@) {
        let c = split(after(v, "perspective"@), ',');
        if c.len() == 4 && is_real_literal(c[0]) && aspect_of(c[1]) is Some && is_real_literal(c[2])
            && is_real_literal(c[3]) {
            Some(
                ProjectionView {
                    fovy: c[0],
                    aspect: aspect_of(c[1]).unwrap(),
                    near: c[2],
                    far: c[3],
                },
            )
        } else {
            None
        }
    } else {
        None
    }
}

pub fn parse_projection(v: &Vec<char>) -> (r: Option<SessionProjection>)
    ensures
        match r {
            Some(p) => projection_of(v@) == Some(p@),
            None => projection_of(v@) is None,
        },
{
    if !starts_with(v, "perspective") {
        return None;
    }
    let c = split_at_char(&rest_after(v, "perspective"), ',');
    if c.len() != 4 || !real_literal(&c[0]) || !real_literal(&c[2]) || !real_literal(&c[3]) {
        return None;
    }
    match parse_aspect(&c[1]) {
        Some(aspect) => Some(
            SessionProjection {
                fovy: string_of(&c[0]),
                aspect,
                near: string_of(&c[2]),
                far: string_of(&c[3]),
            },
        ),
        None => None,
    }
}

} // verus!
