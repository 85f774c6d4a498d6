//! The version tag: `v<major>_<minor>_<patch>`, followed by the pre-release
//! label and the revision marker where there is one.

use crate::error::Error;
use crate::probe::{AnswerView, Probe, ProbeView};
use crate::text::{
    chars_of, digit, identifier_part, is_digit, is_identifier_part, push_str, string_of,
};
use vstd::prelude::*;

verus! {

/// Whether `s` is a non-negative integer literal: one decimal digit or more.
pub open spec fn is_number(s: Seq<char>) -> bool {
    &&& s.len() > 0
    &&& forall|i: int| 0 <= i < s.len() ==> is_digit(#[trigger] s[i])
}

/// The value of the decimal digit `c`.
pub open spec fn digit_value(c: char) -> nat {
    (c as u32 - '0' as u32) as nat
}

/// The decimal digit of value `d`, for `d` below ten.
pub open spec fn digit_char(d: nat) -> char {
    (d + '0' as u32) as char
}

/// The integer that the digits of `s` denote.
pub open spec fn number_value(s: Seq<char>) -> nat
    decreases s.len(),
{
    if s.len() == 0 {
        0
    } else {
        number_value(s.drop_last()) * 10 + digit_value(s.last())
    }
}

/// The decimal literal of `n`, without leading zeros.
pub open spec fn decimal(n: nat) -> Seq<char>
    decreases n,
{
    if n < 10 {
        seq![digit_char(n)]
    } else {
        decimal(n / 10).push(digit_char(n % 10))
    }
}

/// The tag of a version without a revision marker: the three numbers, and
/// the pre-release label unless it is empty.
pub open spec fn release_tag(major: nat, minor: nat, patch: nat, pre: Seq<char>) -> Seq<char> {
    let numbers = seq!['v'] + decimal(major) + seq!['_'] + decimal(minor) + seq!['_'] + decimal(
        patch,
    );
    if pre.len() == 0 {
        numbers
    } else {
        numbers + seq!['_'] + pre
    }
}

/// `tag` followed by the revision marker, where there is one.
pub open spec fn with_marker(tag: Seq<char>, marker: Option<Seq<char>>) -> Seq<char> {
    match marker {
        Some(m) => tag + seq!['_'] + m,
        None => tag,
    }
}

/// A leading zero does not change the value of a literal.
proof fn lemma_leading_zero(s: Seq<char>)
    ensures
        number_value(seq!['0'] + s) == number_value(s),
    decreases s.len(),
{
    let z = seq!['0'] + s;
    if s.len() == 0 {
        assert(z.drop_last() =~= Seq::<char>::empty());
        assert(number_value(z.drop_last()) == 0);
    } else {
        lemma_leading_zero(s.drop_last());
        assert(z.drop_last() =~= seq!['0'] + s.drop_last());
        assert(z.last() == s.last());
    }
}

/// A literal that starts with a digit other than zero denotes a positive
/// integer.
proof fn lemma_positive(s: Seq<char>)
    requires
        is_number(s),
        s[0] != '0',
    ensures
        number_value(s) > 0,
    decreases s.len(),
{
    if s.len() == 1 {
        assert(s.drop_last() =~= Seq::<char>::empty());
        assert(number_value(s.drop_last()) == 0);
        assert(is_digit(s[0]));
    } else {
        let t = s.drop_last();
        assert(t[0] == s[0]);
        assert forall|i: int| 0 <= i < t.len() implies is_digit(#[trigger] t[i]) by {
            assert(t[i] == s[i]);
        }
        lemma_positive(t);
    }
}

/// A literal without a leading zero is the decimal literal of its value.
proof fn lemma_canonical(s: Seq<char>)
    requires
        is_number(s),
        s.len() == 1 || s[0] != '0',
    ensures
        decimal(number_value(s)) == s,
    decreases s.len(),
{
    let d = s.last();
    assert(is_digit(d));
    assert(digit_char(digit_value(d)) == d);
    if s.len() == 1 {
        assert(s.drop_last() =~= Seq::<char>::empty());
        assert(number_value(s.drop_last()) == 0);
        assert(number_value(s) == digit_value(d));
        assert(decimal(number_value(s)) =~= s);
    } else {
        let t = s.drop_last();
        assert(t[0] == s[0]);
        assert forall|i: int| 0 <= i < t.len() implies is_digit(#[trigger] t[i]) by {
            assert(t[i] == s[i]);
        }
        lemma_positive(t);
        lemma_canonical(t);
        let n = number_value(s);
        assert(n == number_value(t) * 10 + digit_value(d));
        assert(n >= 10);
        assert(n / 10 == number_value(t));
        assert(n % 10 == digit_value(d));
        assert(decimal(n) == decimal(number_value(t)).push(d));
        assert(t.push(d) =~= s);
    }
}

/// The decimal literal of `n` is a number, denotes `n` and has no leading
/// zero.
pub proof fn lemma_decimal(n: nat)
    ensures
        is_number(decimal(n)),
        number_value(decimal(n)) == n,
        decimal(n).len() == 1 || decimal(n)[0] != '0',
    decreases n,
{
    if n < 10 {
        let s = decimal(n);
        assert(s.drop_last() =~= Seq::<char>::empty());
        assert(number_value(s.drop_last()) == 0);
        assert(digit_value(digit_char(n)) == n);
    } else {
        lemma_decimal(n / 10);
        let t = decimal(n / 10);
        let s = decimal(n);
        assert(s == t.push(digit_char(n % 10)));
        assert(s.drop_last() =~= t);
        assert(digit_value(digit_char(n % 10)) == n % 10);
        assert(is_digit(digit_char(n % 10)));
        assert(s[0] == t[0]);
        if t.len() == 1 {
            assert(number_value(t) == n / 10);
            assert(t.drop_last() =~= Seq::<char>::empty());
            assert(number_value(t.drop_last()) == 0);
            assert(digit_value(t[0]) == n / 10);
            assert(t[0] != '0');
        }
    }
}

/// The decimal literal of the value of `field`, where `field` is a number.
fn parse_number(field: &str) -> (r: Option<Vec<char>>)
    ensures
        r is Some <==> is_number(field@),
        r matches Some(d) ==> d@ == decimal(number_value(field@)),
{
    let v = chars_of(field);
    let n = v.len();
    if n == 0 {
        return None;
    }
    let mut i: usize = 0;
    while i < n
        invariant
            i <= n,
            n == v.len(),
            v@ == field@,
            forall|j: int| 0 <= j < i ==> is_digit(#[trigger] v@[j]),
        decreases n - i,
    {
        if !digit(v[i]) {
            assert(!is_digit(field@[i as int]));
            return None;
        }
        i += 1;
    }
    let mut k: usize = 0;
    assert(v@.skip(0) =~= v@);
    while k + 1 < n && v[k] == '0'
        invariant
            k < n,
            n == v.len(),
            is_number(v@),
            number_value(v@.skip(k as int)) == number_value(v@),
        decreases n - k,
    {
        proof {
            lemma_leading_zero(v@.skip(k as int + 1));
            assert(v@.skip(k as int) =~= seq!['0'] + v@.skip(k as int + 1));
        }
        k += 1;
    }
    let mut out: Vec<char> = Vec::new();
    let mut j: usize = k;
    while j < n
        invariant
            k <= j <= n,
            n == v.len(),
            out@ == v@.subrange(k as int, j as int),
        decreases n - j,
    {
        out.push(v[j]);
        j += 1;
    }
    proof {
        let s = v@.skip(k as int);
        assert(out@ =~= s);
        lemma_canonical(s);
    }
    Some(out)
}

/// What [`crate_version`] gives: the release tag of the three numbers, or
/// `None` where one of the fields is no number.
pub open spec fn crate_version_spec(
    major: Seq<char>,
    minor: Seq<char>,
    patch: Seq<char>,
    pre: Seq<char>,
) -> Option<Seq<char>> {
    if is_number(major) && is_number(minor) && is_number(patch) {
        Some(release_tag(number_value(major), number_value(minor), number_value(patch), pre))
    } else {
        None
    }
}

/// The characters of the release tag; see [`crate_version`].
pub(crate) fn release_chars(major: &str, minor: &str, patch: &str, pre: &str) -> (r: Option<
    Vec<char>,
>)
    ensures
        r is Some <==> crate_version_spec(major@, minor@, patch@, pre@) is Some,
        r matches Some(t) ==> Some(t@) == crate_version_spec(major@, minor@, patch@, pre@),
{
    let a = match parse_number(major) {
        Some(a) => a,
        None => { return None; },
    };
    let b = match parse_number(minor) {
        Some(b) => b,
        None => { return None; },
    };
    let c = match parse_number(patch) {
        Some(c) => c,
        None => { return None; },
    };
    let mut out: Vec<char> = Vec::new();
    out.push('v');
    let mut a = a;
    out.append(&mut a);
    out.push('_');
    let mut b = b;
    out.append(&mut b);
    out.push('_');
    let mut c = c;
    out.append(&mut c);
    let empty = pre.is_empty();
    if !empty {
        out.push('_');
        push_str(&mut out, pre);
    }
    proof {
        let t = release_tag(
            number_value(major@),
            number_value(minor@),
            number_value(patch@),
            pre@,
        );
        assert(out@ =~= t);
    }
    Some(out)
}

/// The tag of the version `major.minor.patch`, with the pre-release label
/// `pre` where that is not empty: `v<major>_<minor>_<patch>[_<pre>]`.
///
/// Each of the three numbers is written as the decimal literal of its value,
/// so a leading zero of a field does not reach the tag. Fails with
/// [`Error::MalformedVersionField`] where a field is not a number.
pub fn crate_version(major: &str, minor: &str, patch: &str, pre: &str) -> (r: Result<String, Error>)
    ensures
        r is Ok <==> is_number(major@) && is_number(minor@) && is_number(patch@),
        r matches Ok(t) ==> t@ == release_tag(
            number_value(major@),
            number_value(minor@),
            number_value(patch@),
            pre@,
        ),
        r matches Err(e) ==> e == Error::MalformedVersionField,
{
    match release_chars(major, minor, patch, pre) {
        Some(t) => Ok(string_of(&t, 0, t.len())),
        None => Err(Error::MalformedVersionField),
    }
}

/// What [`version`] gives.
///
/// A field that is no number comes first. Then the probe decides: one that
/// is done gives the tag, with its marker where it found one, and any other
/// gives its failure.
pub open spec fn version_spec(
    major: Seq<char>,
    minor: Seq<char>,
    patch: Seq<char>,
    pre: Seq<char>,
    probe: ProbeView,
) -> Result<Seq<char>, Error> {
    match crate_version_spec(major, minor, patch, pre) {
        None => Err(Error::MalformedVersionField),
        Some(tag) => match probe.outcome() {
            Ok(marker) => Ok(with_marker(tag, marker)),
            Err(e) => Err(e),
        },
    }
}

/// The version tag of a build:
/// `v<major>_<minor>_<patch>[_<pre>][_<marker>]`, where the marker is the one
/// that `probe` found.
///
/// Fails with [`Error::MalformedVersionField`] where one of the three
/// numbers is not a non-negative integer literal, and otherwise with
/// [`Error::InvalidRepositoryState`] where the probe failed or is not over.
pub fn version(major: &str, minor: &str, patch: &str, pre: &str, probe: &Probe) -> (r: Result<
    String,
    Error,
>)
    ensures
        r is Ok <==> version_spec(major@, minor@, patch@, pre@, probe@) is Ok,
        r matches Ok(t) ==> Ok::<Seq<char>, Error>(t@) == version_spec(
            major@,
            minor@,
            patch@,
            pre@,
            probe@,
        ),
        r matches Err(e) ==> Err::<Seq<char>, Error>(e) == version_spec(
            major@,
            minor@,
            patch@,
            pre@,
            probe@,
        ),
{
    let mut out = match release_chars(major, minor, patch, pre) {
        Some(t) => t,
        None => { return Err(Error::MalformedVersionField); },
    };
    let ghost tag = out@;
    match probe {
        Probe::Done { marker: Some(m) } => {
            out.push('_');
            push_str(&mut out, m.as_str());
            assert(out@ =~= with_marker(tag, Some(m@)));
            let r = string_of(&out, 0, out.len());
            assert(r@ =~= out@);
            Ok(r)
        },
        Probe::Done { marker: None } => {
            let r = string_of(&out, 0, out.len());
            assert(r@ =~= out@);
            Ok(r)
        },
        _ => Err(Error::InvalidRepositoryState),
    }
}

/// Whether `s` can end an identifier: whether it holds ASCII letters, ASCII
/// digits and underscores only. A tag has to, for `<name>_<tag>` to be a
/// symbol name.
pub open spec fn is_identifier_suffix(s: Seq<char>) -> bool {
    forall|i: int| 0 <= i < s.len() ==> is_identifier_part(#[trigger] s[i])
}

/// Executable form of [`is_identifier_suffix`].
pub fn identifier_suffix(text: &str) -> (r: bool)
    ensures
        r == is_identifier_suffix(text@),
{
    let v = chars_of(text);
    let mut i: usize = 0;
    while i < v.len()
        invariant
            i <= v.len(),
            v@ == text@,
            forall|j: int| 0 <= j < i ==> is_identifier_part(#[trigger] v@[j]),
        decreases v.len() - i,
    {
        if !identifier_part(v[i]) {
            assert(!is_identifier_part(text@[i as int]));
            return false;
        }
        i += 1;
    }
    true
}

/// Without a repository the tag is `v<major>_<minor>_<patch>`, followed by
/// `_<pre>` if and only if `pre` is not empty, and by no revision marker:
/// for all fields that are numbers, and for every pre-release label.
pub proof fn lemma_version_without_repository(
    major: Seq<char>,
    minor: Seq<char>,
    patch: Seq<char>,
    pre: Seq<char>,
)
    requires
        is_number(major),
        is_number(minor),
        is_number(patch),
    ensures
        version_spec(major, minor, patch, pre, ProbeView::Detect.step(AnswerView::Absent))
            == Ok::<Seq<char>, Error>(
            seq!['v'] + decimal(number_value(major)) + seq!['_'] + decimal(number_value(minor))
                + seq!['_'] + decimal(number_value(patch)) + if pre.len() > 0 {
                seq!['_'] + pre
            } else {
                Seq::empty()
            },
        ),
{
    let numbers = seq!['v'] + decimal(number_value(major)) + seq!['_'] + decimal(
        number_value(minor),
    ) + seq!['_'] + decimal(number_value(patch));
    assert(numbers + Seq::<char>::empty() =~= numbers);
    assert(numbers + (seq!['_'] + pre) =~= numbers + seq!['_'] + pre);
}

/// For all integers `major`, `minor` and `patch` that are not negative, the
/// fields that spell them give, without a repository, the tag
/// `v<major>_<minor>_<patch>`, followed by `_<pre>` if and only if `pre` is
/// not empty, and by no revision marker.
pub proof fn lemma_version_of_integers(major: nat, minor: nat, patch: nat, pre: Seq<char>)
    ensures
        version_spec(
            decimal(major),
            decimal(minor),
            decimal(patch),
            pre,
            ProbeView::Detect.step(AnswerView::Absent),
        ) == Ok::<Seq<char>, Error>(release_tag(major, minor, patch, pre)),
        pre.len() == 0 ==> release_tag(major, minor, patch, pre) == seq!['v'] + decimal(major)
            + seq!['_'] + decimal(minor) + seq!['_'] + decimal(patch),
        pre.len() > 0 ==> release_tag(major, minor, patch, pre) == seq!['v'] + decimal(major)
            + seq!['_'] + decimal(minor) + seq!['_'] + decimal(patch) + seq!['_'] + pre,
{
    lemma_decimal(major);
    lemma_decimal(minor);
    lemma_decimal(patch);
}

/// A tag whose pre-release label and revision marker can end an identifier
/// can end one itself.
pub proof fn lemma_tag_is_identifier_suffix(
    major: nat,
    minor: nat,
    patch: nat,
    pre: Seq<char>,
    marker: Option<Seq<char>>,
)
    requires
        is_identifier_suffix(pre),
        marker matches Some(m) ==> is_identifier_suffix(m),
    ensures
        is_identifier_suffix(with_marker(release_tag(major, minor, patch, pre), marker)),
{
    lemma_decimal(major);
    lemma_decimal(minor);
    lemma_decimal(patch);
    let a = decimal(major);
    let b = decimal(minor);
    let c = decimal(patch);
    assert(is_identifier_suffix(a)) by {
        assert forall|i: int| 0 <= i < a.len() implies is_identifier_part(#[trigger] a[i]) by {
            assert(is_digit(a[i]));
        }
    }
    assert(is_identifier_suffix(b)) by {
        assert forall|i: int| 0 <= i < b.len() implies is_identifier_part(#[trigger] b[i]) by {
            assert(is_digit(b[i]));
        }
    }
    assert(is_identifier_suffix(c)) by {
        assert forall|i: int| 0 <= i < c.len() implies is_identifier_part(#[trigger] c[i]) by {
            assert(is_digit(c[i]));
        }
    }
    let numbers = seq!['v'] + a + seq!['_'] + b + seq!['_'] + c;
    assert(is_identifier_suffix(numbers));
    let release = release_tag(major, minor, patch, pre);
    assert(is_identifier_suffix(release));
}

} // verus!
