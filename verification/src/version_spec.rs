//! The version specification model: unresolved version requests
//! (aliases, ranges, sentinels) and their parsing and rendering.
//!
//! Parsing discriminates a request by shape; rendering produces the
//! canonical text form. For any concrete version the two are inverse:
//! rendering then parsing yields the version back.

use vstd::prelude::*;

use crate::version::{
    dec_str, digit_val, digits_val, is_digit_char, is_digits, lemma_dec_str,
    lemma_digits_val_nonneg, parse_u64, render_u64, Version,
};

verus! {

/// Mathematical shape of an unresolved version request; the view of
/// `UnresolvedVersionSpec`.
pub enum SpecShape {
    /// The pre-release channel sentinel.
    Canary,
    /// The "highest available version" sentinel.
    Latest,
    /// A named alias, to be looked up in an alias map.
    Alias(Seq<char>),
    /// A partial version: a major component and optionally a minor one.
    Partial(u64, Option<u64>),
    /// A lower-bounded range: any version at or above the given one.
    Gte(Version),
    /// An exact version, written with all components.
    Semantic(Version),
}

/// An unresolved version request, as a user or a config document states
/// it. Turning one into a concrete `Version` always goes through the
/// resolver; the reverse direction, `Version::to_unresolved_spec`, is a
/// free and lossless conversion.
#[derive(Debug)]
pub enum UnresolvedVersionSpec {
    Canary,
    Latest,
    Alias(String),
    Partial(u64, Option<u64>),
    Gte(Version),
    Semantic(Version),
}

impl View for UnresolvedVersionSpec {
    type V = SpecShape;

    open spec fn view(&self) -> SpecShape {
        match self {
            UnresolvedVersionSpec::Canary => SpecShape::Canary,
            UnresolvedVersionSpec::Latest => SpecShape::Latest,
            UnresolvedVersionSpec::Alias(name) => SpecShape::Alias(name@),
            UnresolvedVersionSpec::Partial(major, minor) => SpecShape::Partial(*major, *minor),
            UnresolvedVersionSpec::Gte(v) => SpecShape::Gte(*v),
            UnresolvedVersionSpec::Semantic(v) => SpecShape::Semantic(*v),
        }
    }
}

/// Why a piece of text is not a version specification.
#[derive(Clone, Copy, PartialEq, Eq, Structural, Debug)]
pub enum ParseError {
    /// The text is empty.
    EmptySpec,
    /// The text starts with a range operator other than `>=`.
    UnsupportedRange,
    /// The text after `>=` is not a dotted run of numbers.
    MalformedRange,
    /// A dotted run of numbers has more than three components.
    MalformedVersion,
    /// A numeric component does not fit in 64 bits.
    ComponentTooLarge,
}

/// Canonical text of a concrete version.
pub open spec fn spec_render_version(v: Version) -> Seq<char> {
    dec_str(v.major as nat) + "."@ + dec_str(v.minor as nat) + "."@ + dec_str(v.patch as nat)
}

/// Canonical text of an unresolved request.
pub open spec fn spec_render(s: SpecShape) -> Seq<char> {
    match s {
        SpecShape::Canary => "canary"@,
        SpecShape::Latest => "latest"@,
        SpecShape::Alias(name) => name,
        SpecShape::Partial(major, minor) => match minor {
            Some(m) => dec_str(major as nat) + "."@ + dec_str(m as nat),
            None => dec_str(major as nat),
        },
        SpecShape::Gte(v) => ">="@ + spec_render_version(v),
        SpecShape::Semantic(v) => spec_render_version(v),
    }
}

/// Compares two string slices by content.
pub fn str_eq(a: &str, b: &str) -> (r: bool)
    ensures
        r == (a@ == b@),
{
    let na = a.unicode_len();
    let nb = b.unicode_len();
    if na != nb {
        return false;
    }
    let mut i: usize = 0;
    while i < na
        invariant
            na as int == a@.len(),
            na as int == b@.len(),
            0 <= i <= na,
            forall|k: int| 0 <= k < i ==> a@[k] == b@[k],
        decreases na - i,
    {
        if a.get_char(i) != b.get_char(i) {
            return false;
        }
        i = i + 1;
    }
    proof {
        assert(a@ =~= b@);
    }
    true
}

impl Version {
    /// Renders `major.minor.patch` in canonical decimal text.
    pub fn render(&self) -> (r: String)
        ensures
            r@ == spec_render_version(*self),
    {
        let mut out = render_u64(self.major);
        out.append(".");
        out.append(render_u64(self.minor).as_str());
        out.append(".");
        out.append(render_u64(self.patch).as_str());
        out
    }

    /// The free, lossless conversion from a resolved version back to an
    /// unresolved request: an exact spec that re-renders identically.
    pub fn to_unresolved_spec(&self) -> (r: UnresolvedVersionSpec)
        ensures
            r@ == SpecShape::Semantic(*self),
    {
        UnresolvedVersionSpec::Semantic(*self)
    }
}

impl UnresolvedVersionSpec {
    /// Canonical text of this request.
    pub fn render(&self) -> (r: String)
        ensures
            r@ == spec_render(self@),
    {
        match self {
            UnresolvedVersionSpec::Canary => String::from_str("canary"),
            UnresolvedVersionSpec::Latest => String::from_str("latest"),
            UnresolvedVersionSpec::Alias(name) => name.clone(),
            UnresolvedVersionSpec::Partial(major, minor) => {
                let mut out = render_u64(*major);
                match minor {
                    Some(m) => {
                        out.append(".");
                        out.append(render_u64(*m).as_str());
                        out
                    },
                    None => out,
                }
            },
            UnresolvedVersionSpec::Gte(v) => {
                let mut out = String::from_str(">=");
                out.append(v.render().as_str());
                out
            },
            UnresolvedVersionSpec::Semantic(v) => v.render(),
        }
    }

    /// An identical copy.
    pub fn duplicate(&self) -> (r: UnresolvedVersionSpec)
        ensures
            r@ == self@,
    {
        match self {
            UnresolvedVersionSpec::Canary => UnresolvedVersionSpec::Canary,
            UnresolvedVersionSpec::Latest => UnresolvedVersionSpec::Latest,
            UnresolvedVersionSpec::Alias(name) => UnresolvedVersionSpec::Alias(name.clone()),
            UnresolvedVersionSpec::Partial(major, minor) => UnresolvedVersionSpec::Partial(
                *major,
                *minor,
            ),
            UnresolvedVersionSpec::Gte(v) => UnresolvedVersionSpec::Gte(*v),
            UnresolvedVersionSpec::Semantic(v) => UnresolvedVersionSpec::Semantic(*v),
        }
    }

    /// Decides equality of two requests.
    pub fn same_as(&self, other: &UnresolvedVersionSpec) -> (r: bool)
        ensures
            r == (self@ == other@),
    {
        match (self, other) {
            (UnresolvedVersionSpec::Canary, UnresolvedVersionSpec::Canary) => true,
            (UnresolvedVersionSpec::Latest, UnresolvedVersionSpec::Latest) => true,
            (UnresolvedVersionSpec::Alias(a), UnresolvedVersionSpec::Alias(b)) => str_eq(
                a.as_str(),
                b.as_str(),
            ),
            (
                UnresolvedVersionSpec::Partial(ma, mia),
                UnresolvedVersionSpec::Partial(mb, mib),
            ) => ma == mb && match (mia, mib) {
                (Some(x), Some(y)) => x == y,
                (None, None) => true,
                _ => false,
            },
            (UnresolvedVersionSpec::Gte(a), UnresolvedVersionSpec::Gte(b)) => a == b,
            (UnresolvedVersionSpec::Semantic(a), UnresolvedVersionSpec::Semantic(b)) => a == b,
            _ => false,
        }
    }

    /// Is this request exactly the given concrete version?
    pub fn is_semantic_of(&self, v: &Version) -> (r: bool)
        ensures
            r == (self@ == SpecShape::Semantic(*v)),
    {
        match self {
            UnresolvedVersionSpec::Semantic(w) => w == v,
            _ => false,
        }
    }
}

/// Length of the run of digits at the front of `s`.
pub open spec fn leading_digits(s: Seq<char>) -> int
    decreases s.len(),
{
    if s.len() == 0 || !is_digit_char(s[0]) {
        0
    } else {
        1 + leading_digits(s.drop_first())
    }
}

/// The leading digit run never overruns the text.
pub proof fn lemma_leading_digits_bound(s: Seq<char>)
    ensures
        0 <= leading_digits(s) <= s.len(),
    decreases s.len(),
{
    if s.len() > 0 && is_digit_char(s[0]) {
        lemma_leading_digits_bound(s.drop_first());
    }
}

/// The leading digit run is exactly the first position that is not a
/// digit (or the whole text, if every position is).
pub proof fn lemma_leading_digits_at(s: Seq<char>, i: int)
    requires
        0 <= i <= s.len(),
        forall|k: int| 0 <= k < i ==> is_digit_char(s[k]),
        i < s.len() ==> !is_digit_char(s[i]),
    ensures
        leading_digits(s) == i,
    decreases s.len(),
{
    if s.len() == 0 {
    } else if i == 0 {
    } else {
        assert(is_digit_char(s[0]));
        lemma_leading_digits_at(s.drop_first(), i - 1);
    }
}

/// Splits `s` on dots into its numeric components: `None` unless `s`
/// is one to any number of non-empty digit runs separated by single
/// dots, with nothing else in between.
pub open spec fn dotted_parts(s: Seq<char>) -> Option<Seq<Seq<char>>>
    decreases s.len(),
{
    let k = leading_digits(s);
    if k == 0 {
        None
    } else if k == s.len() {
        Some(seq![s])
    } else if 0 < k < s.len() && s[k] == '.' {
        match dotted_parts(s.skip(k + 1)) {
            Some(parts) => Some(seq![s.take(k)] + parts),
            None => None,
        }
    } else {
        None
    }
}

/// Every component of a dotted split is a non-empty digit run, and
/// there is at least one component.
pub proof fn lemma_dotted_parts_digits(s: Seq<char>)
    requires
        dotted_parts(s) is Some,
    ensures
        dotted_parts(s)->Some_0.len() >= 1,
        forall|i: int|
            0 <= i < dotted_parts(s)->Some_0.len() ==> is_digits(
                #[trigger] dotted_parts(s)->Some_0[i],
            ),
    decreases s.len(),
{
    let k = leading_digits(s);
    lemma_leading_digits_bound(s);
    lemma_leading_digits_is_digits(s);
    if k == 0 {
    } else if k == s.len() {
        assert(is_digits(s));
    } else if s[k] == '.' {
        lemma_dotted_parts_digits(s.skip(k + 1));
        let head = s.take(k);
        assert(is_digits(head));
        let parts = dotted_parts(s)->Some_0;
        let rest = dotted_parts(s.skip(k + 1))->Some_0;
        assert(parts == seq![head] + rest);
        assert forall|i: int| 0 <= i < parts.len() implies is_digits(#[trigger] parts[i]) by {
            if i == 0 {
                assert(parts[0] == head);
            } else {
                assert(parts[i] == rest[i - 1]);
            }
        }
    }
}

/// The characters inside the leading digit run are digits.
pub proof fn lemma_leading_digits_is_digits(s: Seq<char>)
    ensures
        forall|k: int| 0 <= k < leading_digits(s) ==> is_digit_char(s[k]),
    decreases s.len(),
{
    if s.len() > 0 && is_digit_char(s[0]) {
        lemma_leading_digits_is_digits(s.drop_first());
        lemma_leading_digits_bound(s);
        assert forall|k: int| 0 <= k < leading_digits(s) implies is_digit_char(s[k]) by {
            if k > 0 {
                assert(s.drop_first()[k - 1] == s[k]);
            }
        }
    }
}

/// Counts the digits at the front of the text.
fn leading_digit_count(s: &str) -> (k: usize)
    ensures
        k as int == leading_digits(s@),
        k <= s@.len(),
{
    let n = s.unicode_len();
    let mut i: usize = 0;
    while i < n
        invariant
            n as int == s@.len(),
            0 <= i <= n,
            forall|k: int| 0 <= k < i ==> is_digit_char(s@[k]),
        decreases n - i,
    {
        let c = s.get_char(i);
        let digit = match c {
            '0' | '1' | '2' | '3' | '4' | '5' | '6' | '7' | '8' | '9' => true,
            _ => false,
        };
        if !digit {
            proof {
                lemma_leading_digits_at(s@, i as int);
            }
            return i;
        }
        i = i + 1;
    }
    proof {
        lemma_leading_digits_at(s@, n as int);
    }
    n
}

/// Splits the text on dots into its digit-run components, as
/// `dotted_parts` describes; `None` where the text is not of that
/// shape.
fn split_dotted(s: &str) -> (r: Option<Vec<String>>)
    ensures
        match dotted_parts(s@) {
            Some(parts) => r matches Some(v) && v@.len() == parts.len() && forall|i: int|
                0 <= i < parts.len() ==> #[trigger] v@[i]@ == parts[i],
            None => r is None,
        },
    decreases s@.len(),
{
    let n = s.unicode_len();
    let k = leading_digit_count(s);
    if k == 0 {
        return None;
    }
    if k == n {
        let mut v: Vec<String> = Vec::new();
        v.push(String::from_str(s));
        return Some(v);
    }
    let c = s.get_char(k);
    if c != '.' {
        return None;
    }
    let head = s.substring_char(0, k);
    let tail = s.substring_char(k + 1, n);
    proof {
        assert(head@ =~= s@.take(k as int));
        assert(tail@ =~= s@.skip(k as int + 1));
    }
    match split_dotted(tail) {
        Some(mut rest) => {
            rest.insert(0, String::from_str(head));
            proof {
                let parts = dotted_parts(s@)->Some_0;
                let sub = dotted_parts(s@.skip(k as int + 1))->Some_0;
                assert(parts =~= seq![s@.take(k as int)] + sub);
            }
            Some(rest)
        },
        None => None,
    }
}

/// Builds a concrete version from one to three numeric components,
/// missing ones taken as zero.
pub open spec fn version_of_parts(vals: Seq<int>) -> Version
    recommends
        1 <= vals.len() <= 3,
        forall|i: int| 0 <= i < vals.len() ==> 0 <= #[trigger] vals[i] <= u64::MAX as int,
{
    Version {
        major: vals[0] as u64,
        minor: if vals.len() >= 2 {
            vals[1] as u64
        } else {
            0
        },
        patch: if vals.len() >= 3 {
            vals[2] as u64
        } else {
            0
        },
    }
}

/// Do all components fit in 64 bits?
pub open spec fn parts_fit(parts: Seq<Seq<char>>) -> bool {
    forall|i: int| 0 <= i < parts.len() ==> digits_val(#[trigger] parts[i]) <= u64::MAX as int
}

/// The component values of a dotted split.
pub open spec fn part_vals(parts: Seq<Seq<char>>) -> Seq<int> {
    parts.map_values(|p: Seq<char>| digits_val(p))
}

/// What parsing a piece of text yields, by shape:
/// - empty text is rejected;
/// - `latest`, `*` and `canary` are the sentinels;
/// - `>=` followed by a dotted run of one to three numbers is a
///   lower-bounded range, missing components taken as zero;
/// - any other text opening with a range operator is rejected;
/// - a dotted run of one or two numbers is a partial version, of three
///   an exact one;
/// - anything else names an alias.
pub open spec fn spec_parse(t: Seq<char>) -> Result<SpecShape, ParseError> {
    if t.len() == 0 {
        Err(ParseError::EmptySpec)
    } else if t == "latest"@ || t == "*"@ {
        Ok(SpecShape::Latest)
    } else if t == "canary"@ {
        Ok(SpecShape::Canary)
    } else if t.len() >= 2 && t[0] == '>' && t[1] == '=' {
        match dotted_parts(t.skip(2)) {
            Some(parts) => if parts.len() > 3 {
                Err(ParseError::MalformedRange)
            } else if !parts_fit(parts) {
                Err(ParseError::ComponentTooLarge)
            } else {
                Ok(SpecShape::Gte(version_of_parts(part_vals(parts))))
            },
            None => Err(ParseError::MalformedRange),
        }
    } else if t[0] == '>' || t[0] == '<' || t[0] == '=' || t[0] == '^' || t[0] == '~' {
        Err(ParseError::UnsupportedRange)
    } else {
        match dotted_parts(t) {
            Some(parts) => if parts.len() > 3 {
                Err(ParseError::MalformedVersion)
            } else if !parts_fit(parts) {
                Err(ParseError::ComponentTooLarge)
            } else if parts.len() == 1 {
                Ok(SpecShape::Partial(digits_val(parts[0]) as u64, None))
            } else if parts.len() == 2 {
                Ok(
                    SpecShape::Partial(
                        digits_val(parts[0]) as u64,
                        Some(digits_val(parts[1]) as u64),
                    ),
                )
            } else {
                Ok(SpecShape::Semantic(version_of_parts(part_vals(parts))))
            },
            None => Ok(SpecShape::Alias(t)),
        }
    }
}

/// A single digit run splits into itself.
pub proof fn lemma_dotted_single(a: Seq<char>)
    requires
        is_digits(a),
    ensures
        dotted_parts(a) == Some(seq![a]),
{
    lemma_leading_digits_at(a, a.len() as int);
}

/// Putting a digit run and a dot in front of a splittable text
/// prepends one component.
pub proof fn lemma_dotted_prepend(a: Seq<char>, rest: Seq<char>)
    requires
        is_digits(a),
        dotted_parts(rest) is Some,
    ensures
        dotted_parts(a + "."@ + rest) == Some(seq![a] + dotted_parts(rest)->Some_0),
{
    reveal_strlit(".");
    let s = a + "."@ + rest;
    assert(s.len() == a.len() + 1 + rest.len());
    assert forall|k: int| 0 <= k < a.len() implies is_digit_char(s[k]) by {
        assert(s[k] == a[k]);
    }
    assert(s[a.len() as int] == '.');
    assert(!is_digit_char('.'));
    lemma_leading_digits_at(s, a.len() as int);
    let k = a.len() as int;
    assert(s.skip(k + 1) =~= rest);
    assert(s.take(k) =~= a);
}

/// Rendering a concrete version and parsing the text back yields the
/// same version: the round trip on resolved specifications is the
/// identity.
pub proof fn lemma_render_parse_roundtrip(v: Version)
    ensures
        spec_parse(spec_render(SpecShape::Semantic(v))) == Ok::<SpecShape, ParseError>(
            SpecShape::Semantic(v),
        ),
{
    reveal_strlit("latest");
    reveal_strlit("*");
    reveal_strlit("canary");
    reveal_strlit(".");
    let a = dec_str(v.major as nat);
    let b = dec_str(v.minor as nat);
    let c = dec_str(v.patch as nat);
    lemma_dec_str(v.major as nat);
    lemma_dec_str(v.minor as nat);
    lemma_dec_str(v.patch as nat);
    let t = spec_render(SpecShape::Semantic(v));
    assert(t =~= a + "."@ + (b + "."@ + c));
    assert(t[0] == a[0]);
    assert(is_digit_char(t[0]));
    assert(t != "latest"@) by {
        if t == "latest"@ {
            assert(t[0] == 'l');
        }
    }
    assert(t != "*"@) by {
        if t == "*"@ {
            assert(t[0] == '*');
        }
    }
    assert(t != "canary"@) by {
        if t == "canary"@ {
            assert(t[0] == 'c');
        }
    }
    lemma_dotted_single(c);
    lemma_dotted_prepend(b, c);
    lemma_dotted_prepend(a, b + "."@ + c);
    let parts = seq![a] + (seq![b] + seq![c]);
    assert(dotted_parts(t) == Some(parts));
    assert(parts =~= seq![a, b, c]);
    assert(parts_fit(seq![a, b, c])) by {
        assert(digits_val(a) == v.major as int);
        assert(digits_val(b) == v.minor as int);
        assert(digits_val(c) == v.patch as int);
    }
    assert(part_vals(seq![a, b, c]) =~= seq![
        v.major as int,
        v.minor as int,
        v.patch as int,
    ]);
    assert(version_of_parts(part_vals(seq![a, b, c])) == v);
}

/// Parses the components of a dotted split into their values; `None`
/// exactly where a component does not fit in 64 bits.
fn component_values(parts: &Vec<String>) -> (r: Option<Vec<u64>>)
    requires
        forall|i: int| 0 <= i < parts@.len() ==> is_digits(#[trigger] parts@[i]@),
    ensures
        r is Some <==> parts_fit(parts@.map_values(|p: String| p@)),
        r matches Some(v) ==> v@.len() == parts@.len() && forall|i: int|
            0 <= i < v@.len() ==> #[trigger] v@[i] as int == digits_val(parts@[i]@),
{
    let ghost shapes = parts@.map_values(|p: String| p@);
    let mut out: Vec<u64> = Vec::new();
    let mut i: usize = 0;
    while i < parts.len()
        invariant
            0 <= i <= parts@.len(),
            shapes == parts@.map_values(|p: String| p@),
            forall|k: int| 0 <= k < parts@.len() ==> is_digits(#[trigger] parts@[k]@),
            out@.len() == i,
            forall|k: int| 0 <= k < i ==> #[trigger] out@[k] as int == digits_val(parts@[k]@),
            forall|k: int| 0 <= k < i ==> digits_val(#[trigger] shapes[k]) <= u64::MAX as int,
        decreases parts@.len() - i,
    {
        match parse_u64(parts[i].as_str()) {
            Some(x) => {
                out.push(x);
            },
            None => {
                proof {
                    assert(digits_val(shapes[i as int]) > u64::MAX as int);
                }
                return None;
            },
        }
        i = i + 1;
    }
    Some(out)
}

impl UnresolvedVersionSpec {
    /// Parses a version request from text, as `spec_parse` describes.
    pub fn parse(text: &str) -> (r: Result<UnresolvedVersionSpec, ParseError>)
        ensures
            r matches Ok(s) ==> spec_parse(text@) == Ok::<SpecShape, ParseError>(s@),
            r matches Err(e) ==> spec_parse(text@) == Err::<SpecShape, ParseError>(e),
    {
        let n = text.unicode_len();
        if n == 0 {
            return Err(ParseError::EmptySpec);
        }
        if str_eq(text, "latest") || str_eq(text, "*") {
            return Ok(UnresolvedVersionSpec::Latest);
        }
        if str_eq(text, "canary") {
            return Ok(UnresolvedVersionSpec::Canary);
        }
        let c0 = text.get_char(0);
        if c0 == '>' && n >= 2 && text.get_char(1) == '=' {
            let tail = text.substring_char(2, n);
            proof {
                assert(tail@ =~= text@.skip(2));
            }
            return match split_dotted(tail) {
                Some(parts) => {
                    proof {
                        lemma_dotted_parts_digits(tail@);
                        assert(parts@.map_values(|p: String| p@) =~= dotted_parts(
                            tail@,
                        )->Some_0);
                    }
                    if parts.len() > 3 {
                        Err(ParseError::MalformedRange)
                    } else {
                        match component_values(&parts) {
                            Some(vals) => {
                                let major = vals[0];
                                let minor = if vals.len() >= 2 {
                                    vals[1]
                                } else {
                                    0
                                };
                                let patch = if vals.len() >= 3 {
                                    vals[2]
                                } else {
                                    0
                                };
                                proof {
                                    assert(part_vals(dotted_parts(tail@)->Some_0)
                                        =~= parts@.map_values(|p: String| p@).map_values(
                                        |p: Seq<char>| digits_val(p),
                                    ));
                                }
                                Ok(
                                    UnresolvedVersionSpec::Gte(
                                        Version { major, minor, patch },
                                    ),
                                )
                            },
                            None => Err(ParseError::ComponentTooLarge),
                        }
                    }
                },
                None => Err(ParseError::MalformedRange),
            };
        }
        if c0 == '>' || c0 == '<' || c0 == '=' || c0 == '^' || c0 == '~' {
            return Err(ParseError::UnsupportedRange);
        }
        match split_dotted(text) {
            Some(parts) => {
                proof {
                    lemma_dotted_parts_digits(text@);
                    assert(parts@.map_values(|p: String| p@) =~= dotted_parts(text@)->Some_0);
                }
                if parts.len() > 3 {
                    Err(ParseError::MalformedVersion)
                } else {
                    match component_values(&parts) {
                        Some(vals) => {
                            proof {
                                assert(part_vals(dotted_parts(text@)->Some_0) =~= parts@
                                    .map_values(|p: String| p@).map_values(
                                    |p: Seq<char>| digits_val(p),
                                ));
                            }
                            if vals.len() == 1 {
                                Ok(UnresolvedVersionSpec::Partial(vals[0], None))
                            } else if vals.len() == 2 {
                                Ok(UnresolvedVersionSpec::Partial(vals[0], Some(vals[1])))
                            } else {
                                Ok(
                                    UnresolvedVersionSpec::Semantic(
                                        Version { major: vals[0], minor: vals[1], patch: vals[2] },
                                    ),
                                )
                            }
                        },
                        None => Err(ParseError::ComponentTooLarge),
                    }
                }
            },
            None => Ok(UnresolvedVersionSpec::Alias(String::from_str(text))),
        }
    }
}

} // verus!

