//! Laws on the order of versions.
use vstd::prelude::*;

use crate::text::{lemma_text_order, order_text, text_less, TextOrder};
use crate::version::{
    before, behind, build_of, core_of, dotted, first_of, identifier_less, identifiers_less,
    is_digit, is_number, is_prerelease_word, is_semver, is_word, is_word_char,
    larger_numbers_stand_above, lemma_first_of, lemma_identifier_order, lemma_number_injective,
    lemma_precedence, lemma_version_order, number, order_versions, prerelease_of, version_less,
};

verus! {

/// The parts of a semantic version.
#[verifier::ext_equal]
pub struct VersionParts {
    pub major: nat,
    pub minor: nat,
    pub patch: nat,
    pub prerelease: Option<Seq<Seq<char>>>,
    pub build: Option<Seq<Seq<char>>>,
}

/// A number in decimal digits, without leading zeros.
pub open spec fn spelled(n: nat) -> Seq<char>
    decreases n,
{
    if n < 10 {
        seq![('0' as u32 + n) as char]
    } else {
        spelled(n / 10).push(('0' as u32 + n % 10) as char)
    }
}

/// The texts of a list with a dot between each two.
pub open spec fn dot_joined(list: Seq<Seq<char>>) -> Seq<char>
    decreases list.len(),
{
    if list.len() == 0 {
        seq![]
    } else if list.len() == 1 {
        list[0]
    } else {
        list[0] + seq!['.'] + dot_joined(list.drop_first())
    }
}

/// Whether `s` is made of ASCII letters, digits and hyphens, one at least.
pub open spec fn plain(s: Seq<char>) -> bool {
    &&& s.len() > 0
    &&& forall|i: int|
        0 <= i < s.len() ==> {
            ||| '0' <= #[trigger] s[i] && s[i] <= '9'
            ||| 'a' <= s[i] && s[i] <= 'z'
            ||| 'A' <= s[i] && s[i] <= 'Z'
            ||| s[i] == '-'
        }
}

/// Whether `s` holds something else than digits.
pub open spec fn has_non_digit(s: Seq<char>) -> bool {
    exists|i: int| 0 <= i < s.len() && !('0' <= #[trigger] s[i] && s[i] <= '9')
}

/// Whether `s` may stand in a pre-release: a number without leading zeros, or letters,
/// digits and hyphens that are no number.
pub open spec fn plain_prerelease(s: Seq<char>) -> bool {
    plain(s) && (has_non_digit(s) || s.len() == 1 || s[0] != '0')
}

/// Whether the parts can be written as a semantic version.
pub open spec fn sound(v: VersionParts) -> bool {
    &&& match v.prerelease {
        Some(list) => list.len() > 0 && forall|i: int|
            0 <= i < list.len() ==> plain_prerelease(#[trigger] list[i]),
        None => true,
    }
    &&& match v.build {
        Some(list) => list.len() > 0 && forall|i: int|
            0 <= i < list.len() ==> plain(#[trigger] list[i]),
        None => true,
    }
}

/// `major.minor.patch`.
pub open spec fn numbers_text(v: VersionParts) -> Seq<char> {
    spelled(v.major) + seq!['.'] + spelled(v.minor) + seq!['.'] + spelled(v.patch)
}

/// The text of a version without its build metadata.
pub open spec fn release_text(v: VersionParts) -> Seq<char> {
    match v.prerelease {
        Some(list) => numbers_text(v) + seq!['-'] + dot_joined(list),
        None => numbers_text(v),
    }
}

/// The text of a version.
pub open spec fn version_text(v: VersionParts) -> Seq<char> {
    match v.build {
        Some(list) => release_text(v) + seq!['+'] + dot_joined(list),
        None => release_text(v),
    }
}

/// Whether the numbers of `a` are below those of `b`: the major numbers decide, then the
/// minor ones, then the patch.
pub open spec fn numbers_below(a: VersionParts, b: VersionParts) -> bool {
    ||| a.major < b.major
    ||| a.major == b.major && a.minor < b.minor
    ||| a.major == b.major && a.minor == b.minor && a.patch < b.patch
}

/// Whether `a` and `b` have the same numbers.
pub open spec fn same_numbers(a: VersionParts, b: VersionParts) -> bool {
    a.major == b.major && a.minor == b.minor && a.patch == b.patch
}

/// Whether `s` is no semantic version, however its parts are chosen.
pub open spec fn no_version(s: Seq<char>) -> bool {
    forall|v: VersionParts| sound(v) ==> #[trigger] version_text(v) != s
}

proof fn lemma_split_at(x: Seq<char>, c: char, y: Seq<char>)
    requires
        !x.contains(c),
    ensures
        before(x + seq![c] + y, c) == x,
        behind(x + seq![c] + y, c) == Some(y),
{
    let s = x + seq![c] + y;
    assert forall|i: int| 0 <= i < x.len() implies #[trigger] s[i] != c by {
        assert(s[i] == x[i]);
    }
    lemma_first_of(s, c, x.len());
    assert(s.take(x.len() as int) =~= x);
    assert(s.skip(x.len() as int + 1) =~= y);
}

proof fn lemma_no_split(x: Seq<char>, c: char)
    requires
        !x.contains(c),
    ensures
        before(x, c) == x,
        behind(x, c) is None,
{
    lemma_first_of(x, c, x.len());
    assert(x.take(x.len() as int) =~= x);
}

/// The digits of a number spell it, without leading zeros.
pub proof fn lemma_spelled(n: nat)
    ensures
        is_number(spelled(n)),
        number(spelled(n)) == n,
        n > 0 ==> spelled(n)[0] != '0',
    decreases n,
{
    reveal_with_fuel(number, 2);
    if n < 10 {
        assert(spelled(n) =~= seq![('0' as u32 + n) as char]);
        assert(spelled(n).drop_last() =~= seq![]);
    } else {
        lemma_spelled(n / 10);
        let s = spelled(n);
        assert(s.drop_last() =~= spelled(n / 10));
        assert forall|i: int| 0 <= i < s.len() implies is_digit(#[trigger] s[i]) by {
            if i < s.len() - 1 {
                assert(s[i] == spelled(n / 10)[i]);
            }
        }
    }
}

/// A number without leading zeros is written in one way only.
proof fn lemma_number_spelled(s: Seq<char>)
    requires
        is_number(s),
    ensures
        s == spelled(number(s)),
{
    lemma_spelled(number(s));
    lemma_number_injective(s, spelled(number(s)));
}

proof fn lemma_number_lacks(s: Seq<char>, c: char)
    requires
        is_number(s),
        !is_digit(c),
    ensures
        !s.contains(c),
{
    if s.contains(c) {
        let i = choose|i: int| 0 <= i < s.len() && s[i] == c;
        assert(is_digit(s[i]));
    }
}

proof fn lemma_plain_lacks(s: Seq<char>, c: char)
    requires
        plain(s),
        c == '.' || c == '+',
    ensures
        !s.contains(c),
{
    if s.contains(c) {
        let i = choose|i: int| 0 <= i < s.len() && s[i] == c;
        assert(s[i] == c);
    }
}

proof fn lemma_joined_lacks(list: Seq<Seq<char>>, c: char)
    requires
        c != '.',
        forall|i: int| 0 <= i < list.len() ==> !(#[trigger] list[i]).contains(c),
    ensures
        !dot_joined(list).contains(c),
    decreases list.len(),
{
    let s = dot_joined(list);
    if s.contains(c) {
        let i = choose|i: int| 0 <= i < s.len() && s[i] == c;
        if list.len() == 1 {
            assert(list[0].contains(c));
        } else if list.len() > 1 {
            let rest = list.drop_first();
            assert forall|j: int| 0 <= j < rest.len() implies !(#[trigger] rest[j]).contains(c) by {
                assert(rest[j] == list[j + 1]);
            }
            lemma_joined_lacks(rest, c);
            if i < list[0].len() {
                assert(list[0][i] == c);
            } else {
                assert(dot_joined(rest)[i - list[0].len() - 1] == c);
            }
        }
    }
}

/// What was joined by dots comes apart at them again.
proof fn lemma_dotted_joined(list: Seq<Seq<char>>)
    requires
        list.len() > 0,
        forall|i: int| 0 <= i < list.len() ==> !(#[trigger] list[i]).contains('.'),
    ensures
        dotted(dot_joined(list)) == list,
    decreases list.len(),
{
    let rest = list.drop_first();
    if list.len() == 1 {
        lemma_no_split(list[0], '.');
        assert(dotted(list[0]) =~= list);
    } else {
        assert forall|j: int| 0 <= j < rest.len() implies !(#[trigger] rest[j]).contains('.') by {
            assert(rest[j] == list[j + 1]);
        }
        lemma_dotted_joined(rest);
        lemma_split_at(list[0], '.', dot_joined(rest));
        assert(dotted(dot_joined(list)) =~= list);
    }
}

/// A text is its parts between the dots, joined by dots.
proof fn lemma_joined_dotted(s: Seq<char>)
    ensures
        dotted(s).len() > 0,
        dot_joined(dotted(s)) == s,
    decreases s.len(),
{
    lemma_first_position(s, '.');
    if let Some(tail) = behind(s, '.') {
        lemma_joined_dotted(tail);
        assert(dotted(s).drop_first() =~= dotted(tail));
        assert(s =~= before(s, '.') + seq!['.'] + tail);
    }
}

/// The first `c` lies inside the text or at its end.
proof fn lemma_first_position(s: Seq<char>, c: char)
    ensures
        first_of(s, c) <= s.len(),
        first_of(s, c) < s.len() ==> s[first_of(s, c) as int] == c,
    decreases s.len(),
{
    if s.len() > 0 && s[0] != c {
        lemma_first_position(s.drop_first(), c);
    }
}

proof fn lemma_three(a: Seq<char>, b: Seq<char>, c: Seq<char>)
    ensures
        dot_joined(seq![a, b, c]) == a + seq!['.'] + b + seq!['.'] + c,
{
    reveal_with_fuel(dot_joined, 3);
    assert(seq![a, b, c].drop_first() =~= seq![b, c]);
    assert(seq![b, c].drop_first() =~= seq![c]);
    assert(dot_joined(seq![a, b, c]) =~= a + seq!['.'] + b + seq!['.'] + c);
}

proof fn lemma_numbers(v: VersionParts)
    ensures
        dotted(numbers_text(v)) == seq![spelled(v.major), spelled(v.minor), spelled(v.patch)],
        !numbers_text(v).contains('+'),
        !numbers_text(v).contains('-'),
{
    let list = seq![spelled(v.major), spelled(v.minor), spelled(v.patch)];
    lemma_spelled(v.major);
    lemma_spelled(v.minor);
    lemma_spelled(v.patch);
    lemma_three(list[0], list[1], list[2]);
    assert forall|i: int, c: char| 0 <= i < list.len() && !is_digit(c) implies !(
    #[trigger] list[i].contains(c)) by {
        lemma_number_lacks(list[i], c);
    }
    lemma_dotted_joined(list);
    lemma_joined_lacks(list, '+');
    lemma_joined_lacks(list, '-');
}

/// The text of sound parts is a semantic version with these parts.
pub proof fn lemma_version_text(v: VersionParts)
    requires
        sound(v),
    ensures
        is_semver(version_text(v)),
        core_of(version_text(v)) == seq![spelled(v.major), spelled(v.minor), spelled(v.patch)],
        prerelease_of(version_text(v)) == v.prerelease,
        build_of(version_text(v)) == v.build,
{
    let s = version_text(v);
    let release = release_text(v);
    lemma_numbers(v);
    lemma_spelled(v.major);
    lemma_spelled(v.minor);
    lemma_spelled(v.patch);
    if let Some(list) = v.prerelease {
        assert forall|i: int| 0 <= i < list.len() implies !(#[trigger] list[i]).contains('.')
            && !list[i].contains('+') by {
            lemma_plain_lacks(list[i], '.');
            lemma_plain_lacks(list[i], '+');
        }
        lemma_joined_lacks(list, '+');
        lemma_dotted_joined(list);
        lemma_split_at(numbers_text(v), '-', dot_joined(list));
        if release.contains('+') {
            let i = choose|i: int| 0 <= i < release.len() && release[i] == '+';
            let n = numbers_text(v);
            if i < n.len() {
                assert(n[i] == '+');
            } else {
                assert(dot_joined(list)[i - n.len() - 1] == '+');
            }
        }
        assert forall|i: int| 0 <= i < list.len() implies is_prerelease_word(
            #[trigger] list[i],
        ) by {
            assert(plain_prerelease(list[i]));
        }
    } else {
        lemma_no_split(numbers_text(v), '-');
    }
    assert(!release.contains('+'));
    if let Some(list) = v.build {
        assert forall|i: int| 0 <= i < list.len() implies !(#[trigger] list[i]).contains('.') by {
            lemma_plain_lacks(list[i], '.');
        }
        lemma_dotted_joined(list);
        lemma_split_at(release, '+', dot_joined(list));
        assert forall|i: int| 0 <= i < list.len() implies is_word(
            #[trigger] list[i],
        ) by {
            assert(plain(list[i]));
        }
    } else {
        lemma_no_split(release, '+');
    }
}

/// A semantic version is the text of sound parts.
pub proof fn lemma_parts_of(s: Seq<char>) -> (v: VersionParts)
    requires
        is_semver(s),
    ensures
        sound(v),
        version_text(v) == s,
{
    let core = core_of(s);
    let v = VersionParts {
        major: number(core[0]),
        minor: number(core[1]),
        patch: number(core[2]),
        prerelease: prerelease_of(s),
        build: build_of(s),
    };
    assert(is_number(core[0]) && is_number(core[1]) && is_number(core[2]));
    lemma_number_spelled(core[0]);
    lemma_number_spelled(core[1]);
    lemma_number_spelled(core[2]);
    lemma_three(core[0], core[1], core[2]);
    assert(core =~= seq![core[0], core[1], core[2]]);
    let release = before(s, '+');
    lemma_joined_dotted(before(release, '-'));
    assert(numbers_text(v) == before(release, '-'));
    lemma_first_position(s, '+');
    lemma_first_position(release, '-');
    match behind(release, '-') {
        Some(tail) => {
            lemma_joined_dotted(tail);
            assert(release =~= before(release, '-') + seq!['-'] + tail);
            let list = dotted(tail);
            assert forall|i: int| 0 <= i < list.len() implies plain_prerelease(
                #[trigger] list[i],
            ) by {
                assert(is_prerelease_word(list[i]));
                lemma_prerelease_word(list[i]);
            }
        },
        None => {
            assert(release =~= before(release, '-'));
        },
    }
    assert(release == release_text(v));
    match behind(s, '+') {
        Some(tail) => {
            lemma_joined_dotted(tail);
            assert(s =~= release + seq!['+'] + tail);
            let list = dotted(tail);
            assert forall|i: int| 0 <= i < list.len() implies plain(#[trigger] list[i]) by {
                assert(is_word(list[i]));
                lemma_word(list[i]);
            }
        },
        None => {
            assert(s =~= release);
        },
    }
    v
}

proof fn lemma_word(s: Seq<char>)
    requires
        is_word(s),
    ensures
        plain(s),
{
    assert forall|i: int| 0 <= i < s.len() implies {
        ||| '0' <= #[trigger] s[i] && s[i] <= '9'
        ||| 'a' <= s[i] && s[i] <= 'z'
        ||| 'A' <= s[i] && s[i] <= 'Z'
        ||| s[i] == '-'
    } by {
        assert(is_word_char(s[i]));
    }
}

proof fn lemma_prerelease_word(s: Seq<char>)
    requires
        is_prerelease_word(s),
    ensures
        plain_prerelease(s),
{
    lemma_word(s);
    if !has_non_digit(s) {
        assert forall|i: int| 0 <= i < s.len() implies is_digit(#[trigger] s[i]) by {
            if !('0' <= s[i] && s[i] <= '9') {
                assert(has_non_digit(s));
            }
        }
    }
}

/// A version whose numbers are below those of another comes before it, whatever
/// pre-releases and build metadata the two carry.
pub proof fn smaller_numbers_come_before(
    a: &str,
    b: &str,
    r: TextOrder,
    v: VersionParts,
    w: VersionParts,
)
    requires
        call_ensures(order_versions, (a, b), r),
        sound(v),
        sound(w),
        a@ == version_text(v),
        b@ == version_text(w),
        numbers_below(v, w),
    ensures
        r == TextOrder::Before,
{
    lemma_version_text(v);
    lemma_version_text(w);
    lemma_spelled(v.major);
    lemma_spelled(v.minor);
    lemma_spelled(v.patch);
    lemma_spelled(w.major);
    lemma_spelled(w.minor);
    lemma_spelled(w.patch);
    larger_numbers_stand_above(a@, b@);
}

/// A pre-release, or a version with build metadata, of a larger major number comes after a
/// release of a smaller one, whatever letters, digits and hyphens its identifier is made of.
pub proof fn larger_major_comes_after_whatever_its_identifier(
    a: &str,
    b: &str,
    r: TextOrder,
    major: nat,
    minor: nat,
    patch: nat,
    larger: nat,
    other_minor: nat,
    other_patch: nat,
    mark: char,
    identifier: Seq<char>,
)
    requires
        call_ensures(order_versions, (a, b), r),
        a@ == spelled(major) + seq!['.'] + spelled(minor) + seq!['.'] + spelled(patch),
        b@ == spelled(larger) + seq!['.'] + spelled(other_minor) + seq!['.'] + spelled(other_patch)
            + seq![mark] + identifier,
        major < larger,
        mark == '-' || mark == '+',
        identifier.len() > 0,
        forall|i: int|
            0 <= i < identifier.len() ==> ('0' <= #[trigger] identifier[i] && identifier[i] <= '9')
                || ('a' <= identifier[i] && identifier[i] <= 'z') || ('A' <= identifier[i]
                && identifier[i] <= 'Z') || identifier[i] == '-',
        mark == '-' ==> identifier.len() == 1 || identifier[0] != '0',
    ensures
        r == TextOrder::Before,
{
    let v = VersionParts { major, minor, patch, prerelease: None, build: None };
    let list = seq![identifier];
    let w = VersionParts {
        major: larger,
        minor: other_minor,
        patch: other_patch,
        prerelease: if mark == '-' {
            Some(list)
        } else {
            None
        },
        build: if mark == '-' {
            None
        } else {
            Some(list)
        },
    };
    assert(plain(identifier));
    assert(dot_joined(list) == identifier);
    assert forall|i: int| 0 <= i < list.len() implies plain(#[trigger] list[i]) by {}
    assert(sound(w));
    assert(a@ =~= version_text(v));
    assert(b@ =~= version_text(w));
    smaller_numbers_come_before(a, b, r, v, w);
}

/// A pre-release comes before the release with the same numbers.
pub proof fn prerelease_comes_before_release(
    a: &str,
    b: &str,
    r: TextOrder,
    v: VersionParts,
    w: VersionParts,
)
    requires
        call_ensures(order_versions, (a, b), r),
        sound(v),
        sound(w),
        a@ == version_text(v),
        b@ == version_text(w),
        same_numbers(v, w),
        v.prerelease is Some,
        w.prerelease is None,
    ensures
        r == TextOrder::Before,
{
    lemma_version_text(v);
    lemma_version_text(w);
}

/// Lists with a common beginning compare as what follows it.
proof fn lemma_common_beginning(
    head: Seq<Seq<char>>,
    x: Seq<Seq<char>>,
    y: Seq<Seq<char>>,
)
    ensures
        identifiers_less(head + x, head + y) == identifiers_less(x, y),
    decreases head.len(),
{
    if head.len() == 0 {
        assert(head + x =~= x);
        assert(head + y =~= y);
    } else {
        assert((head + x).drop_first() =~= head.drop_first() + x);
        assert((head + y).drop_first() =~= head.drop_first() + y);
        lemma_common_beginning(head.drop_first(), x, y);
    }
}

/// Whether identifier `x` of a pre-release is below `y`: numbers by value, below all
/// others, and the others as texts.
pub open spec fn identifier_below(x: Seq<char>, y: Seq<char>) -> bool {
    ||| exists|m: nat, n: nat|
        x == #[trigger] spelled(m) && y == #[trigger] spelled(n) && m < n
    ||| !has_non_digit(x) && has_non_digit(y)
    ||| has_non_digit(x) && has_non_digit(y) && text_less(x, y)
}

proof fn lemma_identifier_below(x: Seq<char>, y: Seq<char>)
    requires
        plain_prerelease(x),
        plain_prerelease(y),
        identifier_below(x, y),
    ensures
        x != y,
        identifier_less(x, y),
{
    lemma_numeric(x);
    lemma_numeric(y);
    if exists|m: nat, n: nat|
        x == #[trigger] spelled(m) && y == #[trigger] spelled(n) && m < n {
        let (m, n) = choose|m: nat, n: nat|
            x == #[trigger] spelled(m) && y == #[trigger] spelled(n) && m < n;
        lemma_spelled(m);
        lemma_spelled(n);
    }
    lemma_identifier_order(x, y, x);
}

/// What holds digits alone is a number.
proof fn lemma_numeric(s: Seq<char>)
    requires
        plain_prerelease(s),
    ensures
        is_number(s) <==> !has_non_digit(s),
{
    if has_non_digit(s) {
        let i = choose|i: int| 0 <= i < s.len() && !('0' <= #[trigger] s[i] && s[i] <= '9');
        assert(!is_digit(s[i]));
    } else {
        assert forall|i: int| 0 <= i < s.len() implies is_digit(#[trigger] s[i]) by {
            if !('0' <= s[i] && s[i] <= '9') {
                assert(has_non_digit(s));
            }
        }
    }
}

/// Two pre-releases of one release compare by the first identifier in which they differ;
/// if one goes on where the other ends, it comes after.
pub proof fn prereleases_compare_by_identifiers(
    a: &str,
    b: &str,
    r: TextOrder,
    v: VersionParts,
    w: VersionParts,
    head: Seq<Seq<char>>,
    x: Seq<Seq<char>>,
    y: Seq<Seq<char>>,
)
    requires
        call_ensures(order_versions, (a, b), r),
        sound(v),
        sound(w),
        a@ == version_text(v),
        b@ == version_text(w),
        same_numbers(v, w),
        v.prerelease == Some(head + x),
        w.prerelease == Some(head + y),
        y.len() > 0,
        x.len() == 0 || identifier_below(x[0], y[0]),
    ensures
        r == TextOrder::Before,
{
    lemma_version_text(v);
    lemma_version_text(w);
    lemma_common_beginning(head, x, y);
    if x.len() > 0 {
        assert((head + x)[head.len() as int] == x[0]);
        assert((head + y)[head.len() as int] == y[0]);
        lemma_identifier_below(x[0], y[0]);
    }
}

/// Build metadata decides only between versions that are otherwise the same, and then as
/// text.
pub proof fn build_metadata_decides_last(
    a: &str,
    b: &str,
    r: TextOrder,
    t: TextOrder,
    v: VersionParts,
    w: VersionParts,
)
    requires
        call_ensures(order_versions, (a, b), r),
        call_ensures(order_text, (a, b), t),
        sound(v),
        sound(w),
        a@ == version_text(v),
        b@ == version_text(w),
        same_numbers(v, w),
        v.prerelease == w.prerelease,
    ensures
        r == t,
{
    lemma_version_text(v);
    lemma_version_text(w);
    lemma_precedence(a@, b@, a@);
    lemma_precedence(b@, a@, b@);
    lemma_text_order(a@, b@, a@);
}

/// A text that is no semantic version comes before every one that is.
pub proof fn other_texts_come_before_versions(a: &str, b: &str, r: TextOrder, w: VersionParts)
    requires
        call_ensures(order_versions, (a, b), r),
        no_version(a@),
        sound(w),
        b@ == version_text(w),
    ensures
        r == TextOrder::Before,
{
    lemma_version_text(w);
    if is_semver(a@) {
        let v = lemma_parts_of(a@);
        assert(version_text(v) == a@);
    }
}

/// Texts that are no semantic versions compare as texts.
pub proof fn other_texts_compare_as_texts(a: &str, b: &str, r: TextOrder, t: TextOrder)
    requires
        call_ensures(order_versions, (a, b), r),
        call_ensures(order_text, (a, b), t),
        no_version(a@),
        no_version(b@),
    ensures
        r == t,
{
    if is_semver(a@) {
        let v = lemma_parts_of(a@);
        assert(version_text(v) == a@);
    }
    if is_semver(b@) {
        let v = lemma_parts_of(b@);
        assert(version_text(v) == b@);
    }
    lemma_text_order(a@, b@, a@);
}

/// Whether the version `w` is below the version with the sound parts `v`: its numbers are
/// smaller, or it is a pre-release of `v`, or no semantic version at all.
pub open spec fn plainly_below(w: Seq<char>, v: VersionParts) -> bool {
    ||| no_version(w)
    ||| exists|q: VersionParts|
        #![trigger version_text(q)]
        {
            &&& sound(q)
            &&& version_text(q) == w
            &&& numbers_below(q, v) || (same_numbers(q, v) && q.prerelease is Some
                && v.prerelease is None)
        }
}

/// What is plainly below a version is below it.
pub proof fn lemma_plainly_below(w: Seq<char>, v: VersionParts)
    requires
        sound(v),
        plainly_below(w, v),
    ensures
        version_less(w, version_text(v)),
{
    lemma_version_text(v);
    if no_version(w) {
        if is_semver(w) {
            let q = lemma_parts_of(w);
            assert(version_text(q) == w);
        }
    } else {
        let q = choose|q: VersionParts|
            #![trigger version_text(q)]
            {
                &&& sound(q)
                &&& version_text(q) == w
                &&& numbers_below(q, v) || (same_numbers(q, v) && q.prerelease is Some
                    && v.prerelease is None)
            };
        lemma_version_text(q);
        if numbers_below(q, v) {
            lemma_spelled(v.major);
            lemma_spelled(v.minor);
            lemma_spelled(v.patch);
            lemma_spelled(q.major);
            lemma_spelled(q.minor);
            lemma_spelled(q.patch);
            larger_numbers_stand_above(w, version_text(v));
        }
    }
}

/// Comparing the other way round gives the opposite answer, and only a version with itself
/// gives neither.
pub proof fn version_order_is_antisymmetric(a: &str, b: &str, r: TextOrder, back: TextOrder)
    requires
        call_ensures(order_versions, (a, b), r),
        call_ensures(order_versions, (b, a), back),
    ensures
        r == TextOrder::Before <==> back == TextOrder::After,
        r == TextOrder::After <==> back == TextOrder::Before,
        r == TextOrder::Same <==> a@ == b@,
{
    lemma_version_order(a@, b@, a@);
}

/// What comes before something that comes before a third comes before the third.
pub proof fn version_order_is_transitive(
    a: &str,
    b: &str,
    c: &str,
    ab: TextOrder,
    bc: TextOrder,
    ac: TextOrder,
)
    requires
        call_ensures(order_versions, (a, b), ab),
        call_ensures(order_versions, (b, c), bc),
        call_ensures(order_versions, (a, c), ac),
        ab == TextOrder::Before,
        bc == TextOrder::Before,
    ensures
        ac == TextOrder::Before,
{
    lemma_version_order(a@, b@, c@);
}

} // verus!
