use vstd::prelude::*;
use vstd::string::StringSliceAdditionalSpecFns;
use crate::coords::{BoundingBox, UNITS_PER_DEGREE};
use crate::osm::FeatureKind;

verus! {

/// Why a query could not be made.
#[derive(Clone, Copy, Debug, PartialEq, Eq, Structural)]
pub enum QueryError {
    /// The query template does not render.
    Template,
}

#[verifier::external_type_specification]
#[verifier::external_body]
pub struct ExRenderError(handlebars::RenderError);

/// What a query template renders to with `bbox` bound to the name `bbox`;
/// `None` when it does not render.
pub uninterp spec fn rendered(template: Seq<char>, bbox: Seq<char>) -> Option<Seq<char>>;

/// The query template of each kind of feature. Each refers to the bounding
/// box by the name `bbox` and holds no partial or decorator.
pub open spec fn template_of(kind: FeatureKind) -> Seq<char> {
    match kind {
        FeatureKind::Building => "[out:json][timeout:25];(way[\"building\"]({{bbox}}););out geom;"@,
        FeatureKind::Road => "[out:json][timeout:25];(way[\"highway\"]({{bbox}}););out geom;"@,
        FeatureKind::PointOfInterest => "[out:json][timeout:25];(node[\"amenity\"][\"name\"]({{bbox}}););out geom;"@,
    }
}

/// The query template of a kind of feature.
pub fn query_template(kind: FeatureKind) -> (r: &'static str)
    ensures
        r@ == template_of(kind),
{
    match kind {
        FeatureKind::Building => "[out:json][timeout:25];(way[\"building\"]({{bbox}}););out geom;",
        FeatureKind::Road => "[out:json][timeout:25];(way[\"highway\"]({{bbox}}););out geom;",
        FeatureKind::PointOfInterest => "[out:json][timeout:25];(node[\"amenity\"][\"name\"]({{bbox}}););out geom;",
    }
}

/// Relies on `handlebars::Handlebars::render_template`, on a fresh registry,
/// with the data `{"bbox": bbox}`: the outcome depends on the two texts alone.
/// Only the library's own templates are rendered: a template whose partial
/// includes itself would make the call recurse without end.
#[verifier::external_body]
fn render_with_bbox(template: &str, bbox: &str) -> (r: Result<String, handlebars::RenderError>)
    requires
        exists|kind: FeatureKind| template@ == template_of(kind),
    ensures
        match r {
            Ok(s) => rendered(template@, bbox@) == Some(s@),
            Err(_) => rendered(template@, bbox@) is None,
        },
{
    let mut data = std::collections::BTreeMap::new();
    data.insert("bbox", bbox);
    handlebars::Handlebars::new().render_template(template, &data)
}

/// Relies on `FromIterator<char>` for `String`: the string of those
/// characters, in order.
#[verifier::external_body]
fn string_of(chars: &Vec<char>) -> (r: String)
    ensures
        r@ == chars@,
{
    chars.iter().collect()
}

/// A byte that a form body carries as it is.
pub open spec fn is_unreserved(b: u8) -> bool {
    ||| 48 <= b <= 57
    ||| 65 <= b <= 90
    ||| 97 <= b <= 122
    ||| b == 45
    ||| b == 46
    ||| b == 95
    ||| b == 126
}

/// Upper-case hexadecimal digit of `d < 16`.
pub open spec fn hex_digit(d: u8) -> char {
    if d < 10 {
        ((48 + d) as u8) as char
    } else {
        ((55 + d) as u8) as char
    }
}

/// Percent-encoding of bytes: unreserved bytes stay, every other becomes
/// `%` and two upper-case hexadecimal digits.
pub open spec fn percent_encoded(bytes: Seq<u8>) -> Seq<char>
    decreases bytes.len(),
{
    if bytes.len() == 0 {
        Seq::empty()
    } else {
        let b = bytes.last();
        let tail = if is_unreserved(b) {
            seq![b as char]
        } else {
            seq!['%', hex_digit(b / 16), hex_digit(b % 16)]
        };
        percent_encoded(bytes.drop_last()) + tail
    }
}

/// Relies on `urlencoding::encode`: each byte of the text's UTF-8 form that is
/// an ASCII letter or digit or one of `-._~` is kept, every other byte is
/// written `%XX` in upper-case hexadecimal.
#[verifier::external_body]
fn url_encode(text: &str) -> (r: String)
    ensures
        r@ == percent_encoded(text.spec_bytes()),
{
    urlencoding::encode(text).into_owned()
}

/// The body of a query request: the query, form-encoded under the name `data`.
pub fn request_body(query: &str) -> (r: String)
    ensures
        r@ == "data="@ + percent_encoded(query.spec_bytes()),
{
    let encoded = url_encode(query);
    let body = String::from_str("data=");
    body.concat(encoded.as_str())
}

/// A decimal digit as a character.
pub open spec fn digit_char(d: int) -> char {
    ((48 + d) as u8) as char
}

/// The decimal digits of `n`, without leading zeros.
pub open spec fn decimal(n: nat) -> Seq<char>
    decreases n,
{
    if n < 10 {
        seq![digit_char(n as int)]
    } else {
        decimal(n / 10).push(digit_char((n % 10) as int))
    }
}

/// The seven decimals of `f < 10^7`, with leading zeros.
pub open spec fn seven_decimals(f: int) -> Seq<char> {
    seq![
        digit_char(f / 1_000_000 % 10),
        digit_char(f / 100_000 % 10),
        digit_char(f / 10_000 % 10),
        digit_char(f / 1_000 % 10),
        digit_char(f / 100 % 10),
        digit_char(f / 10 % 10),
        digit_char(f % 10),
    ]
}

/// `s` without its trailing zeros.
pub open spec fn trim_zeros(s: Seq<char>) -> Seq<char>
    decreases s.len(),
{
    if s.len() > 0 && s.last() == '0' {
        trim_zeros(s.drop_last())
    } else {
        s
    }
}

/// A coordinate in units of 1e-7 degree written in decimal degrees: a sign
/// when negative, the whole degrees, then the decimals without trailing
/// zeros (and no point when there are none).
pub open spec fn degrees_text(v: int) -> Seq<char> {
    let a = if v < 0 { -v } else { v };
    let sign = if v < 0 { seq!['-'] } else { Seq::<char>::empty() };
    let whole = decimal((a / (UNITS_PER_DEGREE as int)) as nat);
    let frac = a % (UNITS_PER_DEGREE as int);
    if frac == 0 {
        sign + whole
    } else {
        sign + whole + seq!['.'] + trim_zeros(seven_decimals(frac))
    }
}

/// The text of a bounding box in a query: `south,west,north,east`.
pub open spec fn bbox_text(b: BoundingBox) -> Seq<char> {
    degrees_text(b.south as int) + seq![','] + degrees_text(b.west as int) + seq![','] + degrees_text(
        b.north as int,
    ) + seq![','] + degrees_text(b.east as int)
}

fn digit(d: i64) -> (r: char)
    requires
        0 <= d < 10,
    ensures
        r == digit_char(d as int),
{
    ((48 + d) as u8) as char
}

/// Appends the decimal digits of `n < 1000` to `out`.
fn push_decimal(out: &mut Vec<char>, n: i64)
    requires
        0 <= n < 1000,
    ensures
        final(out)@ == old(out)@ + decimal(n as nat),
{
    proof {
        reveal_with_fuel(decimal, 3);
    }
    if n >= 100 {
        out.push(digit(n / 100));
        out.push(digit(n / 10 % 10));
        out.push(digit(n % 10));
        assert((n / 10) as nat / 10 == n / 100);
    } else if n >= 10 {
        out.push(digit(n / 10));
        out.push(digit(n % 10));
    } else {
        out.push(digit(n));
    }
    assert(out@ =~= old(out)@ + decimal(n as nat));
}

/// Appends the coordinate `v` in decimal degrees to `out`.
fn push_degrees(out: &mut Vec<char>, v: i32)
    ensures
        final(out)@ == old(out)@ + degrees_text(v as int),
{
    let a: i64 = if v < 0 { -(v as i64) } else { v as i64 };
    if v < 0 {
        out.push('-');
    }
    let ghost signed = out@;
    push_decimal(out, a / UNITS_PER_DEGREE);
    let frac = a % UNITS_PER_DEGREE;
    if frac != 0 {
        out.push('.');
        let mut ds: Vec<char> = Vec::new();
        ds.push(digit(frac / 1_000_000 % 10));
        ds.push(digit(frac / 100_000 % 10));
        ds.push(digit(frac / 10_000 % 10));
        ds.push(digit(frac / 1_000 % 10));
        ds.push(digit(frac / 100 % 10));
        ds.push(digit(frac / 10 % 10));
        ds.push(digit(frac % 10));
        assert(ds@ =~= seven_decimals(frac as int));
        while ds.len() > 0 && ds[ds.len() - 1] == '0'
            invariant
                trim_zeros(ds@) == trim_zeros(seven_decimals(frac as int)),
            decreases ds.len(),
        {
            ds.pop();
        }
        assert(trim_zeros(ds@) == ds@);
        let mut i: usize = 0;
        let ghost before = out@;
        while i < ds.len()
            invariant
                i <= ds@.len(),
                out@ == before + ds@.subrange(0, i as int),
            decreases ds.len() - i,
        {
            out.push(ds[i]);
            i += 1;
            assert(out@ =~= before + ds@.subrange(0, i as int));
        }
        assert(ds@.subrange(0, ds@.len() as int) =~= ds@);
    }
    assert(out@ =~= old(out)@ + degrees_text(v as int));
}

impl BoundingBox {
    /// The box as a query writes it: `south,west,north,east` in decimal
    /// degrees.
    pub fn to_query_text(&self) -> (r: String)
        ensures
            r@ == bbox_text(*self),
    {
        let mut out: Vec<char> = Vec::new();
        push_degrees(&mut out, self.south);
        out.push(',');
        push_degrees(&mut out, self.west);
        out.push(',');
        push_degrees(&mut out, self.north);
        out.push(',');
        push_degrees(&mut out, self.east);
        assert(out@ =~= bbox_text(*self));
        string_of(&out)
    }
}

/// Renders the query template of `kind` for the bounding box `bbox`.
pub fn render_query(kind: FeatureKind, bbox: &BoundingBox) -> (r: Result<String, QueryError>)
    ensures
        match rendered(template_of(kind), bbox_text(*bbox)) {
            Some(q) => r matches Ok(s) && s@ == q,
            None => r == Err::<String, QueryError>(QueryError::Template),
        },
{
    let text = bbox.to_query_text();
    let template = query_template(kind);
    match render_with_bbox(template, text.as_str()) {
        Ok(q) => Ok(q),
        Err(_) => Err(QueryError::Template),
    }
}

} // verus!
