use vstd::prelude::*;
use itertools::Itertools;
use crate::tags::{
    all_digits, chars_of, digits_value, is_digit, lemma_prefix_value_le, lookup, text_is, Tags,
};

verus! {

/// Lift of a zebra crossing, in millimetres: it sits just under the road.
pub const ZEBRA_LIFT_MM: i64 = -10;

/// Largest depth that a subway can be given, in millimetres.
pub const MAX_SUBWAY_DEPTH_MM: i64 = 1_000_000_000;

/// The value of an `i32` written as Rust's integer parser reads it: an
/// optional sign and at least one digit, within range.
pub open spec fn parse_i32(s: Seq<char>) -> Option<int> {
    let negative = s.len() > 0 && s[0] == '-';
    let body = if s.len() > 0 && (s[0] == '-' || s[0] == '+') { s.drop_first() } else { s };
    let v = if negative { -digits_value(body) } else { digits_value(body) };
    if body.len() > 0 && all_digits(body) && i32::MIN <= v <= i32::MAX {
        Some(v)
    } else {
        None
    }
}

/// Lift of each road class, in millimetres, so that classes that cross are
/// drawn in a stable order.
pub open spec fn class_lift(class: Seq<char>) -> int {
    if class == "motorway"@ {
        4
    } else if class == "trunk"@ {
        3
    } else if class == "primary"@ {
        2
    } else if class == "secondary"@ {
        1
    } else if class == "residential"@ {
        -1
    } else if class == "service"@ {
        -2
    } else if class == "unclassified"@ {
        -3
    } else if class == "cycleway"@ {
        6
    } else if class == "footway"@ {
        17
    } else {
        0
    }
}

/// The elevation of a road, in millimetres: one per `layer`, the lift of its
/// class, the lift of a zebra crossing, and the subway depth for subways.
/// `level` carries no weight, nor do `bridge` and `tunnel`.
pub open spec fn elevation_spec(entries: Seq<(String, String)>, subway_depth: int) -> int {
    let layer = match lookup(entries, "layer"@) {
        Some(l) => match parse_i32(l) {
            Some(v) => v,
            None => 0,
        },
        None => 0,
    };
    let lift = match lookup(entries, "highway"@) {
        Some(c) => class_lift(c),
        None => 0,
    };
    let crossing = if lookup(entries, "crossing"@) == Some("zebra"@) { ZEBRA_LIFT_MM as int } else { 0 };
    let subway = if lookup(entries, "railway"@) == Some("subway"@) || lookup(entries, "subway"@) is Some {
        subway_depth
    } else {
        0
    };
    subway + crossing + layer + lift
}

/// Reads an `i32` as Rust's integer parser does.
pub fn parse_i32_of(s: &str) -> (r: Option<i32>)
    ensures
        r matches Some(v) ==> parse_i32(s@) == Some(v as int),
        r is None ==> parse_i32(s@) is None,
{
    let cs = chars_of(s);
    let n = cs.len();
    let negative = n > 0 && cs[0] == '-';
    let from: usize = if n > 0 && (cs[0] == '-' || cs[0] == '+') { 1 } else { 0 };
    let ghost body = s@.subrange(from as int, n as int);
    proof {
        if from == 1 {
            assert(body =~= s@.drop_first());
        } else {
            assert(body =~= s@);
        }
        assert(body == (if s@.len() > 0 && (s@[0] == '-' || s@[0] == '+') { s@.drop_first() } else { s@ }));
        assert(negative == (s@.len() > 0 && s@[0] == '-'));
    }
    if from == n {
        return None;
    }
    let mut i: usize = from;
    while i < n
        invariant
            cs@ == s@,
            n == cs@.len(),
            from <= i <= n,
            body == s@.subrange(from as int, n as int),
            body == (if s@.len() > 0 && (s@[0] == '-' || s@[0] == '+') { s@.drop_first() } else { s@ }),
            negative == (s@.len() > 0 && s@[0] == '-'),
            forall|j: int| from <= j < i ==> is_digit(#[trigger] cs@[j]),
        decreases n - i,
    {
        if !('0' <= cs[i] && cs[i] <= '9') {
            assert(body[i - from] == cs@[i as int]);
            assert(!is_digit(body[i - from]));
            assert(!all_digits(body));
            return None;
        }
        i += 1;
    }
    assert(all_digits(body)) by {
        assert forall|j: int| 0 <= j < body.len() implies is_digit(#[trigger] body[j]) by {
            assert(body[j] == cs@[from + j]);
        }
    }
    let mut v: i64 = 0;
    let mut k: usize = from;
    while k < n
        invariant
            cs@ == s@,
            n == cs@.len(),
            from <= k <= n,
            body == s@.subrange(from as int, n as int),
            body == (if s@.len() > 0 && (s@[0] == '-' || s@[0] == '+') { s@.drop_first() } else { s@ }),
            negative == (s@.len() > 0 && s@[0] == '-'),
            all_digits(body),
            v == digits_value(s@.subrange(from as int, k as int)),
            0 <= v <= 2_147_483_648,
        decreases n - k,
    {
        let ghost next = s@.subrange(from as int, k as int + 1);
        assert(next.drop_last() =~= s@.subrange(from as int, k as int));
        assert(body[k - from] == cs@[k as int]);
        assert(next.last() == cs@[k as int]);
        v = 10 * v + (cs[k] as u32 - '0' as u32) as i64;
        assert(v == digits_value(next));
        k += 1;
        if v > 2_147_483_648 {
            proof {
                assert(body.subrange(0, k - from) =~= next);
                lemma_prefix_value_le(body, k - from);
            }
            return None;
        }
    }
    assert(s@.subrange(from as int, n as int) =~= body);
    if negative {
        Some((-v) as i32)
    } else if v <= 2_147_483_647 {
        Some(v as i32)
    } else {
        None
    }
}

/// Lift of a road class, in millimetres.
pub fn class_lift_of(class: &String) -> (r: i64)
    ensures
        r == class_lift(class@),
{
    if text_is(class, "motorway") {
        4
    } else if text_is(class, "trunk") {
        3
    } else if text_is(class, "primary") {
        2
    } else if text_is(class, "secondary") {
        1
    } else if text_is(class, "residential") {
        -1
    } else if text_is(class, "service") {
        -2
    } else if text_is(class, "unclassified") {
        -3
    } else if text_is(class, "cycleway") {
        6
    } else if text_is(class, "footway") {
        17
    } else {
        0
    }
}

impl Tags {
    /// The elevation of a point of interest, in millimetres: the subway
    /// depth for one tagged `subway`, the ground otherwise.
    pub fn point_elevation(&self, subway_depth: i64) -> (r: i64)
        ensures
            r == if lookup(self.0@, "subway"@) is Some { subway_depth } else { 0 },
    {
        if self.get("subway").is_some() {
            subway_depth
        } else {
            0
        }
    }

    /// Whether a road is drawn as an area (it has an `area` tag) rather than
    /// as a strip.
    pub fn is_area(&self) -> (r: bool)
        ensures
            r == lookup(self.0@, "area"@) is Some,
    {
        self.get("area").is_some()
    }

    /// The elevation of a road with these tags, in millimetres, with subways
    /// at `subway_depth`.
    pub fn road_elevation(&self, subway_depth: i64) -> (r: i64)
        requires
            -MAX_SUBWAY_DEPTH_MM <= subway_depth <= MAX_SUBWAY_DEPTH_MM,
        ensures
            r == elevation_spec(self.0@, subway_depth as int),
    {
        let layer: i64 = match self.get("layer") {
            Some(l) => match parse_i32_of(l.as_str()) {
                Some(v) => v as i64,
                None => 0,
            },
            None => 0,
        };
        let lift = match self.get("highway") {
            Some(c) => class_lift_of(c),
            None => 0,
        };
        let crossing = match self.get("crossing") {
            Some(c) => if text_is(c, "zebra") {
                ZEBRA_LIFT_MM
            } else {
                0
            },
            None => 0,
        };
        let is_subway_rail = match self.get("railway") {
            Some(c) => text_is(c, "subway"),
            None => false,
        };
        let subway = if is_subway_rail || self.get("subway").is_some() {
            subway_depth
        } else {
            0
        };
        subway + crossing + layer + lift
    }
}

/// Relies on itertools' `tuple_windows` over `0..m`: every run of four
/// consecutive numbers, `(i, i + 1, i + 2, i + 3)` for `i` from 0 while
/// `i + 3 < m`.
#[verifier::external_body]
fn quad_windows(m: u32) -> (r: Vec<(u32, u32, u32, u32)>)
    ensures
        r@.len() == if m >= 3 { m - 3 } else { 0 },
        forall|i: int| 0 <= i < r@.len() ==> #[trigger] r@[i] == (i as u32, (i + 1) as u32, (i + 2) as u32, (i + 3) as u32),
{
    (0..m).tuple_windows().collect()
}

/// Index `k` of the strip of a road of `p` points: quad `q` joins the left
/// and right vertices of point `q` to those of point `q + 1`, as the
/// triangles `(2q, 2q + 1, 2q + 2)` and `(2q + 2, 2q + 1, 2q + 3)`.
pub open spec fn strip_index(k: int) -> int {
    let q = k / 6;
    let j = k % 6;
    let offset: int = if j == 0 {
        0
    } else if j == 1 {
        1
    } else if j == 2 || j == 3 {
        2
    } else if j == 4 {
        1
    } else {
        3
    };
    2 * q + offset
}

/// Indices of the strip that a road of `points` points becomes, with a
/// left and a right vertex per point: two triangles between each point and
/// the next.
pub fn strip_indices(points: u32) -> (r: Vec<u32>)
    requires
        points <= 1_000_000_000,
    ensures
        r@.len() == if points >= 2 { 6 * (points - 1) } else { 0 },
        forall|k: int| 0 <= k < r@.len() ==> #[trigger] r@[k] as int == strip_index(k),
        forall|k: int| 0 <= k < r@.len() ==> #[trigger] r@[k] < 2 * points,
{
    let windows = quad_windows(2 * points);
    let mut r: Vec<u32> = Vec::new();
    let mut i: usize = 0;
    while i < windows.len()
        invariant
            points <= 1_000_000_000,
            windows@.len() == if 2 * points >= 3 { 2 * points - 3 } else { 0 },
            forall|w: int| 0 <= w < windows@.len() ==> #[trigger] windows@[w] == (w as u32, (w + 1) as u32, (w + 2) as u32, (w + 3) as u32),
            i % 2 == 0,
            i <= windows@.len() + 1,
            r@.len() == 3 * i,
            forall|k: int| 0 <= k < r@.len() ==> #[trigger] r@[k] as int == strip_index(k),
        decreases windows.len() + 1 - i,
    {
        let (a, b, c, d) = windows[i];
        let ghost before = r@.len() as int;
        r.push(a);
        r.push(b);
        r.push(c);
        r.push(c);
        r.push(b);
        r.push(d);
        assert forall|k: int| 0 <= k < r@.len() implies #[trigger] r@[k] as int == strip_index(k) by {
            if k >= before {
                assert(k / 6 == i / 2);
                assert(k % 6 == k - before);
            }
        }
        i += 2;
    }
    proof {
        if points >= 2 {
            assert(r@.len() == 6 * (points - 1));
        } else {
            assert(r@.len() == 0);
        }
        assert forall|k: int| 0 <= k < r@.len() implies #[trigger] r@[k] < 2 * points by {
            assert(r@[k] as int == strip_index(k));
            assert(k / 6 < points - 1);
        }
    }
    r
}

} // verus!
