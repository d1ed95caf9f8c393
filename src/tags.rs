use vstd::prelude::*;

verus! {

/// Height of a building whose tags give none, in millimetres.
pub const DEFAULT_HEIGHT_MM: i64 = 10_000;

/// Height of one storey, in metres: a number of storeys read in thousandths
/// times this is a height in millimetres.
pub const STOREY_HEIGHT_M: i64 = 3;

/// Width of a road whose tags give neither a width nor a known class.
pub const DEFAULT_ROAD_WIDTH_MM: i64 = 2_500;

/// Numbers of this many whole metres or more are not taken.
pub const MAX_WHOLE_METRES: i64 = 1_000_000_000_000;

/// The tags of a feature, as key/value pairs. A key is looked up at its first
/// occurrence.
pub struct Tags(pub Vec<(String, String)>);

/// The value of the first pair whose key is `key`.
pub open spec fn lookup(entries: Seq<(String, String)>, key: Seq<char>) -> Option<Seq<char>>
    decreases entries.len(),
{
    if entries.len() == 0 {
        None
    } else if entries[0].0@ == key {
        Some(entries[0].1@)
    } else {
        lookup(entries.drop_first(), key)
    }
}

/// White space as `char::is_whitespace` knows it.
pub open spec fn is_space(c: char) -> bool {
    let u = c as u32;
    ||| 9 <= u <= 13
    ||| u == 32
    ||| u == 0x85
    ||| u == 0xA0
    ||| u == 0x1680
    ||| 0x2000 <= u <= 0x200A
    ||| u == 0x2028
    ||| u == 0x2029
    ||| u == 0x202F
    ||| u == 0x205F
    ||| u == 0x3000
}

/// First index at or after `i` that holds no white space.
pub open spec fn skip_spaces(s: Seq<char>, i: int) -> int
    decreases s.len() - i,
{
    if i < 0 || i >= s.len() || !is_space(s[i]) {
        i
    } else {
        skip_spaces(s, i + 1)
    }
}

/// First index at or after `i` that holds white space, or the end.
pub open spec fn word_end(s: Seq<char>, i: int) -> int
    decreases s.len() - i,
{
    if i < 0 || i >= s.len() || is_space(s[i]) {
        i
    } else {
        word_end(s, i + 1)
    }
}

/// The first white-space separated word of `s` (empty when there is none).
pub open spec fn first_word(s: Seq<char>) -> Seq<char> {
    let a = skip_spaces(s, 0);
    s.subrange(a, word_end(s, a))
}

pub open spec fn is_digit(c: char) -> bool {
    '0' <= c <= '9'
}

pub open spec fn digit_value(c: char) -> int {
    (c as u32) - ('0' as u32)
}

pub open spec fn all_digits(s: Seq<char>) -> bool {
    forall|i: int| 0 <= i < s.len() ==> is_digit(#[trigger] s[i])
}

/// The number that a string of decimal digits writes.
pub open spec fn digits_value(s: Seq<char>) -> int
    decreases s.len(),
{
    if s.len() == 0 {
        0
    } else {
        10 * digits_value(s.drop_last()) + digit_value(s.last())
    }
}

/// Index of the first `.` of `s`, or its length.
pub open spec fn first_dot(s: Seq<char>, i: int) -> int
    decreases s.len() - i,
{
    if i < 0 || i >= s.len() || s[i] == '.' {
        i
    } else {
        first_dot(s, i + 1)
    }
}

pub open spec fn digit_or_zero(s: Seq<char>, i: int) -> int {
    if i < s.len() {
        digit_value(s[i])
    } else {
        0
    }
}

/// Millimetres of a fraction of a metre: its first three digits.
pub open spec fn fraction_millis(f: Seq<char>) -> int {
    100 * digit_or_zero(f, 0) + 10 * digit_or_zero(f, 1) + digit_or_zero(f, 2)
}

/// Millimetres written by an unsigned decimal `ddd.fff` (either part may be
/// empty, not both; less than a trillion whole metres), digits after the
/// third decimal dropped.
pub open spec fn unsigned_millis(body: Seq<char>) -> Option<int> {
    let d = first_dot(body, 0);
    let whole = body.subrange(0, d);
    let frac = if d < body.len() { body.subrange(d + 1, body.len() as int) } else { Seq::empty() };
    if all_digits(whole) && all_digits(frac) && whole.len() + frac.len() > 0
        && digits_value(whole) < MAX_WHOLE_METRES {
        Some(digits_value(whole) * 1000 + fraction_millis(frac))
    } else {
        None
    }
}

/// Millimetres written by a decimal number of metres with an optional sign;
/// `None` when the text is no such number.
pub open spec fn parse_millis(tok: Seq<char>) -> Option<int> {
    if tok.len() > 0 && tok[0] == '-' {
        match unsigned_millis(tok.drop_first()) {
            Some(v) => Some(-v),
            None => None,
        }
    } else if tok.len() > 0 && tok[0] == '+' {
        unsigned_millis(tok.drop_first())
    } else {
        unsigned_millis(tok)
    }
}

/// The height that the tags give: the leading number of `height`, else the
/// number of `building:levels` times a storey; `None` when the tag that
/// decides holds no number, or neither is there.
pub open spec fn height_spec(entries: Seq<(String, String)>) -> Option<int> {
    match lookup(entries, "height"@) {
        Some(h) => parse_millis(first_word(h)),
        None => match lookup(entries, "building:levels"@) {
            Some(l) => match parse_millis(l) {
                Some(v) => Some(v * STOREY_HEIGHT_M),
                None => None,
            },
            None => None,
        },
    }
}

/// Lane width of a road class.
pub open spec fn lane_width(class: Seq<char>) -> int {
    if class == "motorway"@ {
        6000
    } else if class == "trunk"@ {
        5000
    } else if class == "primary"@ {
        4000
    } else if class == "secondary"@ {
        3500
    } else if class == "tertiary"@ {
        3000
    } else if class == "residential"@ {
        2750
    } else if class == "footway"@ {
        1500
    } else {
        2500
    }
}

/// The width that the tags give: the leading number of `width`, else the lane
/// width of the `highway` class, else the default.
pub open spec fn road_width_spec(entries: Seq<(String, String)>) -> int {
    let given = match lookup(entries, "width"@) {
        Some(w) => parse_millis(first_word(w)),
        None => None,
    };
    match given {
        Some(v) => v,
        None => match lookup(entries, "highway"@) {
            Some(class) => lane_width(class),
            None => DEFAULT_ROAD_WIDTH_MM as int,
        },
    }
}

/// The characters of a string.
pub fn chars_of(s: &str) -> (r: Vec<char>)
    ensures
        r@ == s@,
{
    let n = s.unicode_len();
    let mut r: Vec<char> = Vec::new();
    let mut i: usize = 0;
    while i < n
        invariant
            n == s@.len(),
            i <= n,
            r@ == s@.subrange(0, i as int),
        decreases n - i,
    {
        r.push(s.get_char(i));
        i += 1;
        assert(r@ =~= s@.subrange(0, i as int));
    }
    assert(r@ =~= s@);
    r
}

/// Whether `s` reads `lit`.
pub fn text_is(s: &String, lit: &str) -> (r: bool)
    ensures
        r == (s@ == lit@),
{
    let a = s.as_str();
    let n = a.unicode_len();
    if n != lit.unicode_len() {
        return false;
    }
    let mut i: usize = 0;
    while i < n
        invariant
            n == a@.len(),
            n == lit@.len(),
            a@ == s@,
            i <= n,
            forall|j: int| 0 <= j < i ==> a@[j] == lit@[j],
        decreases n - i,
    {
        if a.get_char(i) != lit.get_char(i) {
            return false;
        }
        i += 1;
    }
    assert(a@ =~= lit@);
    true
}

/// The first white-space separated word of `s`.
pub fn first_word_of(s: &str) -> (r: Vec<char>)
    ensures
        r@ == first_word(s@),
{
    let cs = chars_of(s);
    let n = cs.len();
    let mut a: usize = 0;
    while a < n && is_space_char(cs[a])
        invariant
            cs@ == s@,
            n == cs@.len(),
            a <= n,
            skip_spaces(s@, a as int) == skip_spaces(s@, 0),
        decreases n - a,
    {
        a += 1;
    }
    let mut b: usize = a;
    while b < n && !is_space_char(cs[b])
        invariant
            cs@ == s@,
            n == cs@.len(),
            a <= b <= n,
            a == skip_spaces(s@, 0),
            word_end(s@, b as int) == word_end(s@, a as int),
        decreases n - b,
    {
        b += 1;
    }
    let mut r: Vec<char> = Vec::new();
    let mut i: usize = a;
    while i < b
        invariant
            cs@ == s@,
            a <= i <= b <= n,
            n == cs@.len(),
            r@ == s@.subrange(a as int, i as int),
        decreases b - i,
    {
        r.push(cs[i]);
        i += 1;
        assert(r@ =~= s@.subrange(a as int, i as int));
    }
    r
}

/// Whether `c` is white space.
pub fn is_space_char(c: char) -> (r: bool)
    ensures
        r == is_space(c),
{
    let u = c as u32;
    (9 <= u && u <= 13) || u == 32 || u == 0x85 || u == 0xA0 || u == 0x1680 || (0x2000 <= u && u
        <= 0x200A) || u == 0x2028 || u == 0x2029 || u == 0x202F || u == 0x205F || u == 0x3000
}

/// A string of digits is worth at least each of its prefixes.
pub proof fn lemma_prefix_value_le(s: Seq<char>, k: int)
    requires
        0 <= k <= s.len(),
        all_digits(s),
    ensures
        0 <= digits_value(s.subrange(0, k)) <= digits_value(s),
    decreases s.len(),
{
    if s.len() > 0 {
        lemma_prefix_value_le(s.drop_last(), s.len() - 1);
        assert(s.drop_last().subrange(0, s.len() - 1) =~= s.drop_last());
        if k == s.len() {
            assert(s.subrange(0, k) =~= s);
        } else {
            lemma_prefix_value_le(s.drop_last(), k);
            assert(s.drop_last().subrange(0, k) =~= s.subrange(0, k));
        }
    } else {
        assert(s.subrange(0, k) =~= s);
    }
}

/// The value of the digits `s[from..to]`, when it is below a trillion.
fn digits_in(s: &Vec<char>, from: usize, to: usize) -> (r: Option<i64>)
    requires
        from <= to <= s@.len(),
        all_digits(s@.subrange(from as int, to as int)),
    ensures
        r matches Some(v) ==> v == digits_value(s@.subrange(from as int, to as int)) && 0 <= v < MAX_WHOLE_METRES,
        r is None ==> digits_value(s@.subrange(from as int, to as int)) >= MAX_WHOLE_METRES,
{
    let ghost all = s@.subrange(from as int, to as int);
    let mut v: i64 = 0;
    let mut i: usize = from;
    while i < to
        invariant
            from <= i <= to <= s@.len(),
            all == s@.subrange(from as int, to as int),
            all_digits(all),
            v == digits_value(s@.subrange(from as int, i as int)),
            0 <= v < MAX_WHOLE_METRES,
        decreases to - i,
    {
        let ghost next = s@.subrange(from as int, i as int + 1);
        assert(next.drop_last() =~= s@.subrange(from as int, i as int));
        assert(all[i - from] == s@[i as int]);
        assert(next.last() == s@[i as int]);
        let d = (s[i] as u32 - '0' as u32) as i64;
        v = 10 * v + d;
        assert(v == digits_value(next));
        i += 1;
        if v >= MAX_WHOLE_METRES {
            proof {
                assert(all.subrange(0, i - from) =~= next);
                lemma_prefix_value_le(all, i - from);
            }
            return None;
        }
    }
    assert(s@.subrange(from as int, i as int) == all);
    Some(v)
}

/// Whether `s[from..to]` holds digits only.
fn digits_only(s: &Vec<char>, from: usize, to: usize) -> (r: bool)
    requires
        from <= to <= s@.len(),
    ensures
        r == all_digits(s@.subrange(from as int, to as int)),
{
    let mut i: usize = from;
    while i < to
        invariant
            from <= i <= to <= s@.len(),
            forall|j: int| from <= j < i ==> is_digit(#[trigger] s@[j]),
        decreases to - i,
    {
        if !('0' <= s[i] && s[i] <= '9') {
            assert(!is_digit(s@.subrange(from as int, to as int)[i - from]));
            return false;
        }
        i += 1;
    }
    assert forall|j: int| 0 <= j < to - from implies is_digit(#[trigger] s@.subrange(from as int, to as int)[j]) by {
        assert(s@.subrange(from as int, to as int)[j] == s@[from + j]);
    }
    true
}

/// Millimetres written by the unsigned decimal `s[from..]`.
fn unsigned_millis_of(s: &Vec<char>, from: usize) -> (r: Option<i64>)
    requires
        from <= s@.len(),
    ensures
        r matches Some(v) ==> unsigned_millis(s@.subrange(from as int, s@.len() as int)) == Some(v as int),
        r is None ==> unsigned_millis(s@.subrange(from as int, s@.len() as int)) is None,
        r matches Some(v) ==> 0 <= v < 1_000_000_000_000_000,
{
    let ghost body = s@.subrange(from as int, s@.len() as int);
    let n = s.len();
    let mut d: usize = from;
    while d < n && s[d] != '.'
        invariant
            from <= d <= n,
            n == s@.len(),
            body == s@.subrange(from as int, n as int),
            first_dot(body, d - from) == first_dot(body, 0),
        decreases n - d,
    {
        assert(body[d - from] == s@[d as int]);
        d += 1;
    }
    proof {
        if d < n {
            assert(body[d - from] == s@[d as int]);
        }
    }
    assert(first_dot(body, 0) == d - from);
    let frac_from = if d < n { d + 1 } else { n };
    assert(body.subrange(0, d - from) =~= s@.subrange(from as int, d as int));
    if d < n {
        assert(body.subrange(d - from + 1, body.len() as int) =~= s@.subrange(frac_from as int, n as int));
    } else {
        assert(s@.subrange(frac_from as int, n as int) =~= Seq::<char>::empty());
    }
    if !digits_only(s, from, d) || !digits_only(s, frac_from, n) {
        return None;
    }
    if d - from + (n - frac_from) == 0 {
        return None;
    }
    let whole = match digits_in(s, from, d) {
        Some(v) => v,
        None => {
            return None;
        },
    };
    let ghost frac = s@.subrange(frac_from as int, n as int);
    proof {
        if frac_from < n {
            assert(frac[0] == s@[frac_from as int]);
            assert(is_digit(frac[0]));
        }
        if n - frac_from > 1 {
            assert(frac[1] == s@[frac_from + 1]);
            assert(is_digit(frac[1]));
        }
        if n - frac_from > 2 {
            assert(frac[2] == s@[frac_from + 2]);
            assert(is_digit(frac[2]));
        }
    }
    let f0: i64 = if frac_from < n { (s[frac_from] as u32 - '0' as u32) as i64 } else { 0 };
    let f1: i64 = if n - frac_from > 1 { (s[frac_from + 1] as u32 - '0' as u32) as i64 } else { 0 };
    let f2: i64 = if n - frac_from > 2 { (s[frac_from + 2] as u32 - '0' as u32) as i64 } else { 0 };
    Some(whole * 1000 + 100 * f0 + 10 * f1 + f2)
}

/// Millimetres written by a signed decimal number of metres.
pub fn parse_millis_of(tok: &Vec<char>) -> (r: Option<i64>)
    ensures
        r matches Some(v) ==> parse_millis(tok@) == Some(v as int),
        r is None ==> parse_millis(tok@) is None,
        r matches Some(v) ==> -1_000_000_000_000_000 < v < 1_000_000_000_000_000,
{
    if tok.len() > 0 && tok[0] == '-' {
        assert(tok@.subrange(1, tok@.len() as int) =~= tok@.drop_first());
        match unsigned_millis_of(tok, 1) {
            Some(v) => Some(-v),
            None => None,
        }
    } else if tok.len() > 0 && tok[0] == '+' {
        assert(tok@.subrange(1, tok@.len() as int) =~= tok@.drop_first());
        unsigned_millis_of(tok, 1)
    } else {
        assert(tok@.subrange(0, tok@.len() as int) =~= tok@);
        unsigned_millis_of(tok, 0)
    }
}

impl Tags {
    /// The value of `key`.
    pub fn get(&self, key: &str) -> (r: Option<&String>)
        ensures
            r matches Some(v) ==> lookup(self.0@, key@) == Some(v@),
            r is None ==> lookup(self.0@, key@) is None,
    {
        let n = self.0.len();
        let mut i: usize = 0;
        assert(self.0@.subrange(0, n as int) =~= self.0@);
        while i < n
            invariant
                n == self.0@.len(),
                i <= n,
                lookup(self.0@, key@) == lookup(self.0@.subrange(i as int, n as int), key@),
            decreases n - i,
        {
            let ghost rest = self.0@.subrange(i as int, n as int);
            assert(rest[0] == self.0@[i as int]);
            if text_is(&self.0[i].0, key) {
                return Some(&self.0[i].1);
            }
            assert(rest.drop_first() =~= self.0@.subrange(i as int + 1, n as int));
            i += 1;
        }
        None
    }

    /// The name of the feature, when it has one.
    pub fn name(&self) -> (r: Option<&String>)
        ensures
            r matches Some(v) ==> lookup(self.0@, "name"@) == Some(v@),
            r is None ==> lookup(self.0@, "name"@) is None,
    {
        self.get("name")
    }

    /// Height of a building in millimetres, as its tags give it.
    pub fn building_height(&self) -> (r: Option<i64>)
        ensures
            r matches Some(v) ==> height_spec(self.0@) == Some(v as int),
            r is None ==> height_spec(self.0@) is None,
    {
        match self.get("height") {
            Some(h) => parse_millis_of(&first_word_of(h.as_str())),
            None => match self.get("building:levels") {
                Some(l) => match parse_millis_of(&chars_of(l.as_str())) {
                    Some(v) => Some(v * STOREY_HEIGHT_M),
                    None => None,
                },
                None => None,
            },
        }
    }

    /// Height of a building in millimetres: what the tags give, else the
    /// default height.
    pub fn resolved_height(&self) -> (r: i64)
        ensures
            r == match height_spec(self.0@) {
                Some(v) => v,
                None => DEFAULT_HEIGHT_MM as int,
            },
    {
        match self.building_height() {
            Some(h) => h,
            None => DEFAULT_HEIGHT_MM,
        }
    }

    /// Width of a road in millimetres.
    pub fn road_width(&self) -> (r: i64)
        ensures
            r == road_width_spec(self.0@),
    {
        let given = match self.get("width") {
            Some(w) => parse_millis_of(&first_word_of(w.as_str())),
            None => None,
        };
        match given {
            Some(v) => v,
            None => match self.get("highway") {
                Some(class) => lane_width_of(class),
                None => DEFAULT_ROAD_WIDTH_MM,
            },
        }
    }
}

/// Lane width of a road class, in millimetres.
pub fn lane_width_of(class: &String) -> (r: i64)
    ensures
        r == lane_width(class@),
{
    if text_is(class, "motorway") {
        6000
    } else if text_is(class, "trunk") {
        5000
    } else if text_is(class, "primary") {
        4000
    } else if text_is(class, "secondary") {
        3500
    } else if text_is(class, "tertiary") {
        3000
    } else if text_is(class, "residential") {
        2750
    } else if text_is(class, "footway") {
        1500
    } else {
        2500
    }
}

} // verus!
