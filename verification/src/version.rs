//! Versions and their order.
//!
//! Versions are compared by the precedence of semantic versioning: major, minor and patch
//! as numbers, then a pre-release below its release. A text that is no semantic version
//! stands below all that are, in text order.
use vstd::prelude::*;

use crate::codec::texts;
use crate::text::{chars_of, lemma_text_order, order_text, text_less, TextOrder};

verus! {

/// Where `c` first stands in `s`; the length of `s` if it does not.
pub open spec fn first_of(s: Seq<char>, c: char) -> nat
    decreases s.len(),
{
    if s.len() == 0 || s[0] == c {
        0
    } else {
        1 + first_of(s.drop_first(), c)
    }
}

/// What stands before the first `c`; all of `s` if there is none.
pub open spec fn before(s: Seq<char>, c: char) -> Seq<char> {
    s.take(first_of(s, c) as int)
}

/// What stands behind the first `c`, if there is one.
pub open spec fn behind(s: Seq<char>, c: char) -> Option<Seq<char>> {
    if first_of(s, c) < s.len() {
        Some(s.skip(first_of(s, c) as int + 1))
    } else {
        None
    }
}

/// The parts of `s` between its dots.
pub open spec fn dotted(s: Seq<char>) -> Seq<Seq<char>>
    decreases s.len(),
{
    match behind(s, '.') {
        None => seq![s],
        Some(tail) => seq![before(s, '.')] + dotted(tail),
    }
}

/// Whether `c` is a decimal digit.
pub open spec fn is_digit(c: char) -> bool {
    '0' <= c && c <= '9'
}

/// Whether `s` holds digits only.
pub open spec fn all_digits(s: Seq<char>) -> bool {
    forall|i: int| 0 <= i < s.len() ==> is_digit(#[trigger] s[i])
}

/// Whether `s` is a decimal number without leading zeros.
pub open spec fn is_number(s: Seq<char>) -> bool {
    &&& s.len() > 0
    &&& all_digits(s)
    &&& s.len() > 1 ==> s[0] != '0'
}

/// The number that digits spell.
pub open spec fn number(s: Seq<char>) -> nat
    decreases s.len(),
{
    if s.len() == 0 {
        0
    } else {
        10 * number(s.drop_last()) + (s.last() as u32 - '0' as u32) as nat
    }
}

/// Whether `c` may stand in an identifier: an ASCII letter, a digit or a hyphen.
pub open spec fn is_word_char(c: char) -> bool {
    is_digit(c) || ('a' <= c && c <= 'z') || ('A' <= c && c <= 'Z') || c == '-'
}

/// Whether `s` is an identifier of build metadata.
pub open spec fn is_word(s: Seq<char>) -> bool {
    &&& s.len() > 0
    &&& forall|i: int| 0 <= i < s.len() ==> is_word_char(#[trigger] s[i])
}

/// Whether `s` is an identifier of a pre-release: like one of build metadata, but a number
/// has no leading zeros.
pub open spec fn is_prerelease_word(s: Seq<char>) -> bool {
    is_word(s) && (all_digits(s) ==> is_number(s))
}

/// Major, minor and patch of a version.
pub open spec fn core_of(s: Seq<char>) -> Seq<Seq<char>> {
    dotted(before(before(s, '+'), '-'))
}

/// The identifiers of the pre-release that a version is, if it is one.
pub open spec fn prerelease_of(s: Seq<char>) -> Option<Seq<Seq<char>>> {
    match behind(before(s, '+'), '-') {
        Some(tail) => Some(dotted(tail)),
        None => None,
    }
}

/// The identifiers of the build metadata that a version carries, if any.
pub open spec fn build_of(s: Seq<char>) -> Option<Seq<Seq<char>>> {
    match behind(s, '+') {
        Some(tail) => Some(dotted(tail)),
        None => None,
    }
}

/// Whether all of a list are numbers.
pub open spec fn all_numbers(list: Seq<Seq<char>>) -> bool {
    forall|i: int| 0 <= i < list.len() ==> is_number(#[trigger] list[i])
}

/// Whether all of a list are identifiers of build metadata.
pub open spec fn all_words(list: Seq<Seq<char>>) -> bool {
    forall|i: int| 0 <= i < list.len() ==> is_word(#[trigger] list[i])
}

/// Whether all of a list are identifiers of a pre-release.
pub open spec fn all_prerelease_words(list: Seq<Seq<char>>) -> bool {
    forall|i: int| 0 <= i < list.len() ==> is_prerelease_word(#[trigger] list[i])
}

/// Whether `s` is a semantic version: `major.minor.patch`, then a pre-release behind a `-`,
/// then build metadata behind a `+`. The last two may be absent.
pub open spec fn is_semver(s: Seq<char>) -> bool {
    &&& core_of(s).len() == 3
    &&& all_numbers(core_of(s))
    &&& match prerelease_of(s) {
        Some(p) => all_prerelease_words(p),
        None => true,
    }
    &&& match build_of(s) {
        Some(b) => all_words(b),
        None => true,
    }
}

/// The order of identifiers: numbers by value, below all others; the others as texts.
pub open spec fn identifier_less(a: Seq<char>, b: Seq<char>) -> bool {
    if is_number(a) && is_number(b) {
        number(a) < number(b)
    } else if is_number(a) || is_number(b) {
        is_number(a)
    } else {
        text_less(a, b)
    }
}

/// The order of lists of identifiers: by the first that differs; a list that goes on is
/// above its beginning.
pub open spec fn identifiers_less(a: Seq<Seq<char>>, b: Seq<Seq<char>>) -> bool
    decreases a.len(),
{
    if b.len() == 0 {
        false
    } else if a.len() == 0 {
        true
    } else if a[0] != b[0] {
        identifier_less(a[0], b[0])
    } else {
        identifiers_less(a.drop_first(), b.drop_first())
    }
}

/// Whether semantic version `a` has a lower precedence than `b`. Build metadata does not
/// count.
pub open spec fn precedes(a: Seq<char>, b: Seq<char>) -> bool {
    if core_of(a) != core_of(b) {
        identifiers_less(core_of(a), core_of(b))
    } else {
        match (prerelease_of(a), prerelease_of(b)) {
            (Some(p), Some(q)) => identifiers_less(p, q),
            (Some(_), None) => true,
            _ => false,
        }
    }
}

/// The order of versions: texts that are no semantic version in text order, then semantic
/// versions by precedence, and those of equal precedence in text order.
pub open spec fn version_less(a: Seq<char>, b: Seq<char>) -> bool {
    if is_semver(a) && is_semver(b) {
        precedes(a, b) || (!precedes(b, a) && text_less(a, b))
    } else if is_semver(a) || is_semver(b) {
        is_semver(b)
    } else {
        text_less(a, b)
    }
}

/// The first `c` is where its name says.
pub proof fn lemma_first_of(s: Seq<char>, c: char, n: nat)
    requires
        n <= s.len(),
        n < s.len() ==> s[n as int] == c,
        forall|i: int| 0 <= i < n ==> #[trigger] s[i] != c,
    ensures
        first_of(s, c) == n,
    decreases n,
{
    if n > 0 {
        let t = s.drop_first();
        assert forall|i: int| 0 <= i < n - 1 implies #[trigger] t[i] != c by {
            assert(s[i + 1] != c);
        }
        lemma_first_of(t, c, (n - 1) as nat);
    }
}

/// 10 to the power of `n`.
spec fn pow10(n: nat) -> nat
    decreases n,
{
    if n == 0 {
        1
    } else {
        10 * pow10((n - 1) as nat)
    }
}

/// `n` digits spell less than 10 to the power of `n`.
proof fn lemma_number_bound(s: Seq<char>)
    requires
        all_digits(s),
    ensures
        number(s) < pow10(s.len()),
    decreases s.len(),
{
    if s.len() > 0 {
        assert(is_digit(s[s.len() - 1]));
        lemma_number_bound(s.drop_last());
    }
}

/// Digits that do not begin with 0 spell at least 10 to the power of one less than their
/// count.
proof fn lemma_number_floor(s: Seq<char>)
    requires
        s.len() > 0,
        all_digits(s),
        s[0] != '0',
    ensures
        number(s) >= pow10((s.len() - 1) as nat),
    decreases s.len(),
{
    assert(is_digit(s[s.len() - 1]));
    if s.len() == 1 {
        assert(is_digit(s[0]));
        assert(number(s.drop_last()) == 0);
    } else {
        lemma_number_floor(s.drop_last());
    }
}

/// Powers of 10 grow with the exponent.
proof fn lemma_pow10_monotone(a: nat, b: nat)
    requires
        a <= b,
    ensures
        pow10(a) <= pow10(b),
    decreases b,
{
    if a < b {
        lemma_pow10_monotone(a, (b - 1) as nat);
    }
}

/// A number of fewer digits is smaller.
proof fn lemma_shorter_number(a: Seq<char>, b: Seq<char>)
    requires
        is_number(a),
        is_number(b),
        a.len() < b.len(),
    ensures
        number(a) < number(b),
{
    lemma_number_bound(a);
    lemma_number_floor(b);
    lemma_pow10_monotone(a.len(), (b.len() - 1) as nat);
}

/// Of two numbers of as many digits the one with the smaller digit where they first differ
/// is smaller.
proof fn lemma_smaller_digit(a: Seq<char>, b: Seq<char>, n: int)
    requires
        all_digits(a),
        all_digits(b),
        a.len() == b.len(),
        0 <= n < a.len(),
        a.take(n) == b.take(n),
        a[n] < b[n],
    ensures
        number(a) < number(b),
    decreases a.len(),
{
    let (x, y) = (a.drop_last(), b.drop_last());
    assert(is_digit(a[a.len() - 1]));
    assert(is_digit(b[b.len() - 1]));
    if n == a.len() - 1 {
        assert(x =~= a.take(n));
        assert(y =~= b.take(n));
    } else {
        assert(x.take(n) =~= a.take(n));
        assert(y.take(n) =~= b.take(n));
        lemma_smaller_digit(x, y, n);
    }
}

/// Different numbers have different values.
pub proof fn lemma_number_injective(a: Seq<char>, b: Seq<char>)
    requires
        is_number(a),
        is_number(b),
        number(a) == number(b),
    ensures
        a == b,
    decreases a.len(),
{
    if a.len() < b.len() {
        lemma_shorter_number(a, b);
    } else if b.len() < a.len() {
        lemma_shorter_number(b, a);
    } else if a != b {
        assert(a.take(0) =~= b.take(0));
        let n = lemma_first_difference(a, b, 0);
        if a[n] < b[n] {
            lemma_smaller_digit(a, b, n);
        } else {
            assert(b.take(n) == a.take(n));
            lemma_smaller_digit(b, a, n);
        }
    }
}

/// Two different texts of the same length differ somewhere for the first time.
proof fn lemma_first_difference(a: Seq<char>, b: Seq<char>, from: int) -> (n: int)
    requires
        a.len() == b.len(),
        0 <= from <= a.len(),
        a.take(from) == b.take(from),
        a != b,
    ensures
        from <= n < a.len(),
        a.take(n) == b.take(n),
        a[n] != b[n],
    decreases a.len() - from,
{
    if from == a.len() {
        assert(a =~= a.take(from));
        assert(b =~= b.take(from));
        from
    } else if a[from] != b[from] {
        from
    } else {
        assert(a.take(from + 1) =~= a.take(from).push(a[from]));
        assert(b.take(from + 1) =~= b.take(from).push(b[from]));
        lemma_first_difference(a, b, from + 1)
    }
}

/// The order of identifiers is a strict total order.
pub proof fn lemma_identifier_order(a: Seq<char>, b: Seq<char>, c: Seq<char>)
    ensures
        !identifier_less(a, a),
        identifier_less(a, b) && identifier_less(b, c) ==> identifier_less(a, c),
        a == b || identifier_less(a, b) || identifier_less(b, a),
        !(identifier_less(a, b) && identifier_less(b, a)),
{
    lemma_text_order(a, b, c);
    if is_number(a) && is_number(b) && number(a) == number(b) {
        lemma_number_injective(a, b);
    }
}

proof fn lemma_identifiers_irreflexive(a: Seq<Seq<char>>)
    ensures
        !identifiers_less(a, a),
    decreases a.len(),
{
    if a.len() > 0 {
        lemma_identifiers_irreflexive(a.drop_first());
    }
}

proof fn lemma_identifiers_transitive(a: Seq<Seq<char>>, b: Seq<Seq<char>>, c: Seq<Seq<char>>)
    requires
        identifiers_less(a, b),
        identifiers_less(b, c),
    ensures
        identifiers_less(a, c),
    decreases a.len(),
{
    if a.len() > 0 && b.len() > 0 && c.len() > 0 {
        lemma_identifier_order(a[0], b[0], c[0]);
        if a[0] == b[0] && b[0] == c[0] {
            lemma_identifiers_transitive(a.drop_first(), b.drop_first(), c.drop_first());
        }
    }
}

proof fn lemma_identifiers_total(a: Seq<Seq<char>>, b: Seq<Seq<char>>)
    ensures
        a == b || identifiers_less(a, b) || identifiers_less(b, a),
    decreases a.len(),
{
    if a.len() == 0 {
        if b.len() == 0 {
            assert(a =~= b);
        }
    } else if b.len() > 0 {
        lemma_identifier_order(a[0], b[0], a[0]);
        if a[0] == b[0] {
            lemma_identifiers_total(a.drop_first(), b.drop_first());
            if a.drop_first() == b.drop_first() {
                assert(a =~= seq![a[0]] + a.drop_first());
                assert(b =~= seq![b[0]] + b.drop_first());
            }
        }
    }
}

/// The order of lists of identifiers is a strict total order.
proof fn lemma_identifiers_order(a: Seq<Seq<char>>, b: Seq<Seq<char>>, c: Seq<Seq<char>>)
    ensures
        !identifiers_less(a, a),
        identifiers_less(a, b) && identifiers_less(b, c) ==> identifiers_less(a, c),
        a == b || identifiers_less(a, b) || identifiers_less(b, a),
        !(identifiers_less(a, b) && identifiers_less(b, a)),
{
    lemma_identifiers_irreflexive(a);
    lemma_identifiers_total(a, b);
    if identifiers_less(a, b) && identifiers_less(b, c) {
        lemma_identifiers_transitive(a, b, c);
    }
    if identifiers_less(a, b) && identifiers_less(b, a) {
        lemma_identifiers_transitive(a, b, a);
    }
}

/// Precedence is strict and transitive, and leaves only versions that differ in nothing
/// but their build metadata unordered.
pub proof fn lemma_precedence(a: Seq<char>, b: Seq<char>, c: Seq<char>)
    ensures
        !precedes(a, a),
        precedes(a, b) && precedes(b, c) ==> precedes(a, c),
        (core_of(a) == core_of(b) && prerelease_of(a) == prerelease_of(b)) || precedes(a, b)
            || precedes(b, a),
        !(precedes(a, b) && precedes(b, a)),
        core_of(a) == core_of(b) && prerelease_of(a) == prerelease_of(b) ==> precedes(a, c)
            == precedes(b, c) && precedes(c, a) == precedes(c, b),
{
    lemma_identifiers_order(core_of(a), core_of(b), core_of(c));
    if let Some(p) = prerelease_of(a) {
        lemma_identifiers_irreflexive(p);
        if let Some(q) = prerelease_of(b) {
            lemma_identifiers_order(p, q, q);
            if let Some(r) = prerelease_of(c) {
                lemma_identifiers_order(p, q, r);
            }
        }
    }
}

/// The order of versions is a strict total order.
pub proof fn lemma_version_order(a: Seq<char>, b: Seq<char>, c: Seq<char>)
    ensures
        !version_less(a, a),
        version_less(a, b) && version_less(b, c) ==> version_less(a, c),
        a == b || version_less(a, b) || version_less(b, a),
        !(version_less(a, b) && version_less(b, a)),
{
    lemma_text_order(a, b, c);
    lemma_precedence(a, b, c);
    lemma_precedence(b, c, a);
    lemma_precedence(c, a, b);
}

/// Splits `s` at the first `c`.
fn split_once(s: &str, c: char) -> (r: (String, Option<String>))
    ensures
        r.0@ == before(s@, c),
        match r.1 {
            Some(tail) => behind(s@, c) == Some(tail@),
            None => behind(s@, c) is None && r.0@ == s@,
        },
{
    let chars = chars_of(s);
    let total: usize = chars.len();
    let mut i: usize = 0;
    while i < total && chars[i] != c
        invariant
            i <= total,
            total == chars@.len(),
            chars@ == s@,
            forall|j: int| 0 <= j < i ==> #[trigger] s@[j] != c,
        decreases total - i,
    {
        i = i + 1;
    }
    proof {
        lemma_first_of(s@, c, i as nat);
    }
    let head = s.substring_char(0, i).to_owned();
    assert(s@.subrange(0, i as int) =~= s@.take(i as int));
    if i < total {
        let tail = s.substring_char(i + 1, total).to_owned();
        assert(s@.subrange(i + 1, total as int) =~= s@.skip(i + 1));
        (head, Some(tail))
    } else {
        assert(s@.take(i as int) =~= s@);
        (head, None)
    }
}

/// Splits `s` at its dots.
fn dotted_parts(s: &str) -> (r: Vec<String>)
    ensures
        texts(r@) == dotted(s@),
{
    let mut out: Vec<String> = Vec::new();
    let mut rest = s.to_owned();
    assert(texts(out@) + dotted(rest@) =~= dotted(s@));
    loop
        invariant
            texts(out@) + dotted(rest@) == dotted(s@),
        decreases rest@.len(),
    {
        let ghost done = texts(out@);
        let ghost whole = rest@;
        match split_once(rest.as_str(), '.') {
            (head, None) => {
                let ghost h = head@;
                out.push(head);
                assert(texts(out@) =~= done.push(h));
                assert(done.push(h) =~= done + dotted(whole));
                return out;
            },
            (head, Some(tail)) => {
                let ghost h = head@;
                out.push(head);
                assert(texts(out@) =~= done.push(h));
                assert(done.push(h) + dotted(tail@) =~= done + (seq![h] + dotted(tail@)));
                rest = tail;
            },
        }
    }
}

/// Whether `s` holds digits only.
fn digits_only(chars: &Vec<char>) -> (r: bool)
    ensures
        r == all_digits(chars@),
{
    let mut i: usize = 0;
    while i < chars.len()
        invariant
            i <= chars@.len(),
            forall|j: int| 0 <= j < i ==> is_digit(#[trigger] chars@[j]),
        decreases chars@.len() - i,
    {
        let c = chars[i];
        if !('0' <= c && c <= '9') {
            assert(!is_digit(chars@[i as int]));
            return false;
        }
        i = i + 1;
    }
    true
}

/// Whether `s` is a decimal number without leading zeros.
fn number_form(s: &str) -> (r: bool)
    ensures
        r == is_number(s@),
{
    let chars = chars_of(s);
    chars.len() > 0 && digits_only(&chars) && (chars.len() == 1 || chars[0] != '0')
}

/// Whether `s` is an identifier of build metadata.
fn word_form(s: &str) -> (r: bool)
    ensures
        r == is_word(s@),
{
    let chars = chars_of(s);
    let mut i: usize = 0;
    while i < chars.len()
        invariant
            i <= chars@.len(),
            chars@ == s@,
            forall|j: int| 0 <= j < i ==> is_word_char(#[trigger] s@[j]),
        decreases chars@.len() - i,
    {
        let c = chars[i];
        let fits = ('0' <= c && c <= '9') || ('a' <= c && c <= 'z') || ('A' <= c && c <= 'Z') || c
            == '-';
        if !fits {
            assert(!is_word_char(s@[i as int]));
            return false;
        }
        i = i + 1;
    }
    chars.len() > 0
}

/// Whether `s` is an identifier of a pre-release.
fn prerelease_form(s: &str) -> (r: bool)
    ensures
        r == is_prerelease_word(s@),
{
    word_form(s) && (!digits_only(&chars_of(s)) || number_form(s))
}

/// Whether all of a list are numbers.
fn numbers_form(list: &Vec<String>) -> (r: bool)
    ensures
        r == all_numbers(texts(list@)),
{
    let ghost all = texts(list@);
    let mut i: usize = 0;
    while i < list.len()
        invariant
            i <= list@.len(),
            all == texts(list@),
            forall|j: int| 0 <= j < i ==> is_number(#[trigger] all[j]),
        decreases list@.len() - i,
    {
        assert(all[i as int] == list@[i as int]@);
        if !number_form(list[i].as_str()) {
            return false;
        }
        i = i + 1;
    }
    true
}

/// Whether all of a list are identifiers of build metadata.
fn words_form(list: &Vec<String>) -> (r: bool)
    ensures
        r == all_words(texts(list@)),
{
    let ghost all = texts(list@);
    let mut i: usize = 0;
    while i < list.len()
        invariant
            i <= list@.len(),
            all == texts(list@),
            forall|j: int| 0 <= j < i ==> is_word(#[trigger] all[j]),
        decreases list@.len() - i,
    {
        assert(all[i as int] == list@[i as int]@);
        if !word_form(list[i].as_str()) {
            return false;
        }
        i = i + 1;
    }
    true
}

/// Whether all of a list are identifiers of a pre-release.
fn prerelease_words_form(list: &Vec<String>) -> (r: bool)
    ensures
        r == all_prerelease_words(texts(list@)),
{
    let ghost all = texts(list@);
    let mut i: usize = 0;
    while i < list.len()
        invariant
            i <= list@.len(),
            all == texts(list@),
            forall|j: int| 0 <= j < i ==> is_prerelease_word(#[trigger] all[j]),
        decreases list@.len() - i,
    {
        assert(all[i as int] == list@[i as int]@);
        if !prerelease_form(list[i].as_str()) {
            return false;
        }
        i = i + 1;
    }
    true
}

/// The parts of a semantic version that decide its precedence.
struct Release {
    core: Vec<String>,
    prerelease: Option<Vec<String>>,
}

/// Takes a semantic version apart; `None` if `s` is none.
fn release_of(s: &str) -> (r: Option<Release>)
    ensures
        r is Some <==> is_semver(s@),
        r matches Some(v) ==> {
            &&& texts(v.core@) == core_of(s@)
            &&& match v.prerelease {
                Some(p) => prerelease_of(s@) == Some(texts(p@)),
                None => prerelease_of(s@) is None,
            }
        },
{
    let (main, build) = split_once(s, '+');
    let (numbers, tail) = split_once(main.as_str(), '-');
    let core = dotted_parts(numbers.as_str());
    assert(texts(core@).len() == core@.len());
    if core.len() != 3 || !numbers_form(&core) {
        return None;
    }
    if let Some(b) = build {
        if !words_form(&dotted_parts(b.as_str())) {
            return None;
        }
    }
    match tail {
        None => Some(Release { core, prerelease: None }),
        Some(t) => {
            let words = dotted_parts(t.as_str());
            if prerelease_words_form(&words) {
                Some(Release { core, prerelease: Some(words) })
            } else {
                None
            }
        },
    }
}

/// Compares two numbers by value.
fn order_numbers(a: &str, b: &str) -> (r: TextOrder)
    requires
        is_number(a@),
        is_number(b@),
    ensures
        r == TextOrder::Before <==> number(a@) < number(b@),
        r == TextOrder::Same <==> a@ == b@,
        r == TextOrder::After <==> number(b@) < number(a@),
{
    let x = chars_of(a);
    let y = chars_of(b);
    if x.len() < y.len() {
        proof {
            lemma_shorter_number(a@, b@);
        }
        return TextOrder::Before;
    }
    if y.len() < x.len() {
        proof {
            lemma_shorter_number(b@, a@);
        }
        return TextOrder::After;
    }
    let mut i: usize = 0;
    while i < x.len()
        invariant
            i <= x@.len(),
            x@.len() == y@.len(),
            x@ == a@,
            y@ == b@,
            is_number(a@),
            is_number(b@),
            a@.take(i as int) == b@.take(i as int),
        decreases x@.len() - i,
    {
        if x[i] < y[i] {
            proof {
                lemma_smaller_digit(a@, b@, i as int);
            }
            return TextOrder::Before;
        }
        if y[i] < x[i] {
            proof {
                assert(b@.take(i as int) == a@.take(i as int));
                lemma_smaller_digit(b@, a@, i as int);
            }
            return TextOrder::After;
        }
        proof {
            assert(a@.take(i + 1) =~= a@.take(i as int).push(a@[i as int]));
            assert(b@.take(i + 1) =~= b@.take(i as int).push(b@[i as int]));
        }
        i = i + 1;
    }
    assert(a@ =~= a@.take(i as int));
    assert(b@ =~= b@.take(i as int));
    TextOrder::Same
}

/// Compares two identifiers.
fn order_identifiers(a: &str, b: &str) -> (r: TextOrder)
    ensures
        r == TextOrder::Before <==> identifier_less(a@, b@),
        r == TextOrder::Same <==> a@ == b@,
        r == TextOrder::After <==> identifier_less(b@, a@),
{
    let left = number_form(a);
    let right = number_form(b);
    if left && right {
        order_numbers(a, b)
    } else if left {
        TextOrder::Before
    } else if right {
        TextOrder::After
    } else {
        order_text(a, b)
    }
}

/// Compares two lists of identifiers.
fn order_lists(a: &Vec<String>, b: &Vec<String>) -> (r: TextOrder)
    ensures
        r == TextOrder::Before <==> identifiers_less(texts(a@), texts(b@)),
        r == TextOrder::Same <==> texts(a@) == texts(b@),
        r == TextOrder::After <==> identifiers_less(texts(b@), texts(a@)),
{
    let ghost x = texts(a@);
    let ghost y = texts(b@);
    let mut i: usize = 0;
    proof {
        lemma_identifiers_order(x, y, x);
        assert(x.skip(0) =~= x);
        assert(y.skip(0) =~= y);
    }
    while i < a.len() && i < b.len()
        invariant
            i <= a@.len(),
            i <= b@.len(),
            x == texts(a@),
            y == texts(b@),
            x.take(i as int) == y.take(i as int),
            identifiers_less(x, y) == identifiers_less(x.skip(i as int), y.skip(i as int)),
            identifiers_less(y, x) == identifiers_less(y.skip(i as int), x.skip(i as int)),
        decreases a@.len() - i,
    {
        proof {
            assert(x[i as int] == a@[i as int]@);
            assert(y[i as int] == b@[i as int]@);
            assert(x.skip(i as int).drop_first() =~= x.skip(i + 1));
            assert(y.skip(i as int).drop_first() =~= y.skip(i + 1));
            assert(x.take(i + 1) =~= x.take(i as int).push(x[i as int]));
            assert(y.take(i + 1) =~= y.take(i as int).push(y[i as int]));
            lemma_identifier_order(x[i as int], y[i as int], x[i as int]);
        }
        match order_identifiers(a[i].as_str(), b[i].as_str()) {
            TextOrder::Before => {
                assert(x != y);
                return TextOrder::Before;
            },
            TextOrder::After => {
                assert(x != y);
                return TextOrder::After;
            },
            TextOrder::Same => {},
        }
        i = i + 1;
    }
    if i < b.len() {
        TextOrder::Before
    } else if i < a.len() {
        TextOrder::After
    } else {
        assert(x =~= x.take(i as int));
        assert(y =~= y.take(i as int));
        TextOrder::Same
    }
}

/// Compares two versions.
pub fn order_versions(a: &str, b: &str) -> (r: TextOrder)
    ensures
        r == TextOrder::Before <==> version_less(a@, b@),
        r == TextOrder::Same <==> a@ == b@,
        r == TextOrder::After <==> version_less(b@, a@),
{
    proof {
        lemma_version_order(a@, b@, a@);
        lemma_precedence(a@, b@, a@);
        lemma_identifiers_order(core_of(a@), core_of(b@), core_of(a@));
    }
    let by_precedence = match (release_of(a), release_of(b)) {
        (Some(x), Some(y)) => match order_lists(&x.core, &y.core) {
            TextOrder::Same => match (&x.prerelease, &y.prerelease) {
                (Some(p), Some(q)) => order_lists(p, q),
                (Some(_), None) => TextOrder::Before,
                (None, Some(_)) => TextOrder::After,
                (None, None) => TextOrder::Same,
            },
            other => other,
        },
        (None, Some(_)) => TextOrder::Before,
        (Some(_), None) => TextOrder::After,
        (None, None) => TextOrder::Same,
    };
    match by_precedence {
        TextOrder::Same => order_text(a, b),
        other => other,
    }
}

/// A release stands above its pre-releases.
pub proof fn release_above_prerelease(release: Seq<char>, prerelease: Seq<char>)
    requires
        is_semver(release),
        is_semver(prerelease),
        core_of(release) == core_of(prerelease),
        prerelease_of(release) is None,
        prerelease_of(prerelease) is Some,
    ensures
        version_less(prerelease, release),
{
}

/// Of two semantic versions the one with the larger major number stands above, and with
/// equal major numbers the one with the larger minor number, and so on to the patch.
pub proof fn larger_numbers_stand_above(a: Seq<char>, b: Seq<char>)
    requires
        is_semver(a),
        is_semver(b),
        ({
            let (x, y) = (core_of(a), core_of(b));
            ||| number(x[0]) < number(y[0])
            ||| number(x[0]) == number(y[0]) && number(x[1]) < number(y[1])
            ||| number(x[0]) == number(y[0]) && number(x[1]) == number(y[1]) && number(x[2])
                < number(y[2])
        }),
    ensures
        version_less(a, b),
{
    let (x, y) = (core_of(a), core_of(b));
    assert(is_number(x[0]) && is_number(x[1]) && is_number(x[2]));
    assert(is_number(y[0]) && is_number(y[1]) && is_number(y[2]));
    if number(x[0]) == number(y[0]) {
        lemma_number_injective(x[0], y[0]);
        if number(x[1]) == number(y[1]) {
            lemma_number_injective(x[1], y[1]);
        }
    }
    reveal_with_fuel(identifiers_less, 3);
    let (x1, y1) = (x.drop_first(), y.drop_first());
    assert(x1[0] == x[1] && y1[0] == y[1]);
    assert(x1.drop_first()[0] == x[2] && y1.drop_first()[0] == y[2]);
}

} // verus!
