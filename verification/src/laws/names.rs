//! Laws on method names and the registry.
use vstd::prelude::*;

use crate::codec::texts;
use crate::laws::versions::{
    lemma_plainly_below, plainly_below, sound, version_text, VersionParts,
};
use crate::method::{
    candidate, canonical, is_latest, is_pinned, latest_unique, lemma_name_of, name_of, resolve,
    spells, version_of, HandlerEntry, MethodName, MethodNameView,
    MethodRegistry,
};
use crate::text::{lemma_text_order, text_less};
use crate::version::{lemma_version_order, order_versions, version_less};

verus! {

/// `package@version/interface/method`.
pub open spec fn pinned_text(
    package: Seq<char>,
    version: Seq<char>,
    interface: Seq<char>,
    method: Seq<char>,
) -> Seq<char> {
    package + seq!['@'] + version + seq!['/'] + interface + seq!['/'] + method
}

/// `package/interface/method`.
pub open spec fn unpinned_text(
    package: Seq<char>,
    interface: Seq<char>,
    method: Seq<char>,
) -> Seq<char> {
    package + seq!['/'] + interface + seq!['/'] + method
}

proof fn lemma_pinned_name(
    package: Seq<char>,
    version: Seq<char>,
    interface: Seq<char>,
    method: Seq<char>,
)
    requires
        package.len() > 0 && !package.contains('/') && !package.contains('@'),
        version.len() > 0 && !version.contains('/'),
        interface.len() > 0 && !interface.contains('/'),
        method.len() > 0,
    ensures
        name_of(pinned_text(package, version, interface, method)) == Some(
            MethodNameView { package, version: Some(version), interface, method },
        ),
{
    let n = MethodNameView { package, version: Some(version), interface, method };
    assert(canonical(n) =~= pinned_text(package, version, interface, method));
    lemma_name_of(canonical(n), n);
}

proof fn lemma_unpinned_name(package: Seq<char>, interface: Seq<char>, method: Seq<char>)
    requires
        package.len() > 0 && !package.contains('/') && !package.contains('@'),
        interface.len() > 0 && !interface.contains('/'),
        method.len() > 0,
    ensures
        name_of(unpinned_text(package, interface, method)) == Some(
            MethodNameView { package, version: None, interface, method },
        ),
{
    let n = MethodNameView { package, version: None, interface, method };
    assert(canonical(n) =~= unpinned_text(package, interface, method));
    lemma_name_of(canonical(n), n);
}

/// A text `package@version/interface/method` with no part empty, `/` in the method alone
/// and `@` not in the package parses to exactly these parts.
pub proof fn pinned_names_parse(
    s: &str,
    r: Option<MethodName>,
    package: Seq<char>,
    version: Seq<char>,
    interface: Seq<char>,
    method: Seq<char>,
)
    requires
        call_ensures(MethodName::parse, (s,), r),
        s@ == package + seq!['@'] + version + seq!['/'] + interface + seq!['/'] + method,
        package.len() > 0 && !package.contains('/') && !package.contains('@'),
        version.len() > 0 && !version.contains('/'),
        interface.len() > 0 && !interface.contains('/'),
        method.len() > 0,
    ensures
        r matches Some(n) && {
            &&& n.package@ == package
            &&& n.version matches Some(v) && v@ == version
            &&& n.interface@ == interface
            &&& n.method@ == method
        },
{
    lemma_pinned_name(package, version, interface, method);
}

/// A text `package/interface/method` with no part empty, `/` in the method alone and no
/// `@` in the package parses to exactly these parts, without a version.
pub proof fn unpinned_names_parse(
    s: &str,
    r: Option<MethodName>,
    package: Seq<char>,
    interface: Seq<char>,
    method: Seq<char>,
)
    requires
        call_ensures(MethodName::parse, (s,), r),
        s@ == package + seq!['/'] + interface + seq!['/'] + method,
        package.len() > 0 && !package.contains('/') && !package.contains('@'),
        interface.len() > 0 && !interface.contains('/'),
        method.len() > 0,
    ensures
        r matches Some(n) && {
            &&& n.package@ == package
            &&& n.version is None
            &&& n.interface@ == interface
            &&& n.method@ == method
        },
{
    lemma_unpinned_name(package, interface, method);
}

/// What parses is spelled by its parts, none of which is empty, and of which only the
/// method may hold a `/` and only the version, the interface and the method an `@`.
pub proof fn parsed_names_spell_their_text(s: &str, r: Option<MethodName>)
    requires
        call_ensures(MethodName::parse, (s,), r),
    ensures
        r matches Some(n) ==> {
            &&& n.package@.len() > 0 && !n.package@.contains('/') && !n.package@.contains('@')
            &&& n.interface@.len() > 0 && !n.interface@.contains('/')
            &&& n.method@.len() > 0
            &&& match n.version {
                Some(v) => {
                    &&& v@.len() > 0 && !v@.contains('/')
                    &&& s@ == n.package@ + seq!['@'] + v@ + seq!['/'] + n.interface@ + seq!['/']
                        + n.method@
                },
                None => s@ == n.package@ + seq!['/'] + n.interface@ + seq!['/'] + n.method@,
            }
        },
{
}

/// The text of a name is its parts with `@` and `/` between them, whatever the parts.
pub proof fn canonical_text_is_the_parts(n: &MethodName, r: String)
    requires
        call_ensures(MethodName::to_canonical, (n,), r),
    ensures
        match n.version {
            Some(v) => r@ == n.package@ + seq!['@'] + v@ + seq!['/'] + n.interface@ + seq!['/']
                + n.method@,
            None => r@ == n.package@ + seq!['/'] + n.interface@ + seq!['/'] + n.method@,
        },
{
}

/// Writing a parsed name gives back the text that was parsed.
pub proof fn parsing_and_writing_back(s: &str, n: MethodName, r: String)
    requires
        call_ensures(MethodName::parse, (s,), Some(n)),
        call_ensures(MethodName::to_canonical, (&n,), r),
    ensures
        r@ == s@,
{
}

/// A name is pinned if and only if it parses with a version.
pub proof fn pinned_means_parsed_with_a_version(s: &str, n: Option<MethodName>, r: bool)
    requires
        call_ensures(MethodName::parse, (s,), n),
        call_ensures(is_pinned, (s,), r),
    ensures
        r <==> (n matches Some(parts) && parts.version is Some),
{
}

/// Every name with a version can be registered, for a unary and for a streaming handler.
pub proof fn pinned_names_can_be_registered<U, S>(
    reg: &mut MethodRegistry<U, S>,
    name: &str,
    unary: U,
    streaming: S,
    package: Seq<char>,
    version: Seq<char>,
    interface: Seq<char>,
    method: Seq<char>,
)
    requires
        name@ == package + seq!['@'] + version + seq!['/'] + interface + seq!['/'] + method,
        package.len() > 0 && !package.contains('/') && !package.contains('@'),
        version.len() > 0 && !version.contains('/'),
        interface.len() > 0 && !interface.contains('/'),
        method.len() > 0,
    ensures
        call_requires(MethodRegistry::<U, S>::register, (reg, name, unary)),
        call_requires(MethodRegistry::<U, S>::register_streaming, (reg, name, streaming)),
{
    lemma_pinned_name(package, version, interface, method);
}

/// A unary handler that was registered is what its name is looked up to, replacing whatever
/// the name had; as a streaming method the name is then unknown.
pub proof fn registered_unary_handler_is_found<U, S>(
    reg: &mut MethodRegistry<U, S>,
    name: &str,
    handler: U,
    after: &MethodRegistry<U, S>,
    unary: Option<&U>,
    streaming: Option<&S>,
)
    requires
        call_ensures(MethodRegistry::<U, S>::register, (reg, name, handler), ()),
        after@ == final(reg)@,
        call_ensures(MethodRegistry::<U, S>::lookup, (after, name), unary),
        call_ensures(MethodRegistry::<U, S>::lookup_streaming, (after, name), streaming),
    ensures
        unary == Some(&handler),
        streaming is None,
{
}

/// A streaming handler that was registered is what its name is looked up to, replacing
/// whatever the name had; as a unary method the name is then unknown.
pub proof fn registered_streaming_handler_is_found<U, S>(
    reg: &mut MethodRegistry<U, S>,
    name: &str,
    handler: S,
    after: &MethodRegistry<U, S>,
    unary: Option<&U>,
    streaming: Option<&S>,
)
    requires
        call_ensures(MethodRegistry::<U, S>::register_streaming, (reg, name, handler), ()),
        after@ == final(reg)@,
        call_ensures(MethodRegistry::<U, S>::lookup, (after, name), unary),
        call_ensures(MethodRegistry::<U, S>::lookup_streaming, (after, name), streaming),
    ensures
        streaming == Some(&handler),
        unary is None,
{
}

/// Registering under one name leaves every other entry as it is, and adds one name unless
/// it was there.
pub proof fn registering_touches_one_name<U, S>(
    reg: &mut MethodRegistry<U, S>,
    name: &str,
    handler: U,
    other: Seq<char>,
)
    requires
        call_ensures(MethodRegistry::<U, S>::register, (reg, name, handler), ()),
        other != name@,
    ensures
        final(reg)@.dom().contains(name@),
        final(reg)@.dom().contains(other) <==> old(reg)@.dom().contains(other),
        final(reg)@[other] == old(reg)@[other],
{
}

/// Registering a streaming handler under one name leaves every other entry as it is.
pub proof fn registering_streaming_touches_one_name<U, S>(
    reg: &mut MethodRegistry<U, S>,
    name: &str,
    handler: S,
    other: Seq<char>,
)
    requires
        call_ensures(MethodRegistry::<U, S>::register_streaming, (reg, name, handler), ()),
        other != name@,
    ensures
        final(reg)@.dom().contains(name@),
        final(reg)@.dom().contains(other) <==> old(reg)@.dom().contains(other),
        final(reg)@[other] == old(reg)@[other],
{
}

/// A registered name is looked up to its own handler, of the kind it was registered with,
/// whatever else is registered.
pub proof fn registered_names_are_found<'a, U, S>(
    reg: &'a MethodRegistry<U, S>,
    name: &str,
    unary: Option<&'a U>,
    streaming: Option<&'a S>,
)
    requires
        call_ensures(MethodRegistry::<U, S>::lookup, (reg, name), unary),
        call_ensures(MethodRegistry::<U, S>::lookup_streaming, (reg, name), streaming),
        reg@.dom().contains(name@),
    ensures
        match reg@[name@] {
            HandlerEntry::Unary(h) => unary == Some(&h) && streaming is None,
            HandlerEntry::Streaming(h) => streaming == Some(&h) && unary is None,
        },
{
}

/// A name that is not registered and does not leave the version out is looked up to
/// nothing: there is no falling back to another version.
pub proof fn other_names_are_not_found<'a, U, S>(
    reg: &'a MethodRegistry<U, S>,
    name: &str,
    unary: Option<&'a U>,
    streaming: Option<&'a S>,
)
    requires
        call_ensures(MethodRegistry::<U, S>::lookup, (reg, name), unary),
        call_ensures(MethodRegistry::<U, S>::lookup_streaming, (reg, name), streaming),
        !reg@.dom().contains(name@),
        forall|package: Seq<char>, interface: Seq<char>, method: Seq<char>|
            package.contains('/') || package.contains('@') || name@ != #[trigger] unpinned_text(
                package,
                interface,
                method,
            ),
    ensures
        unary is None,
        streaming is None,
{
    if let Some(n) = name_of(name@) {
        assert(spells(name@, n));
        if n.version is None {
            assert(canonical(n) =~= unpinned_text(n.package, n.interface, n.method));
        }
    }
}

/// The latest of the registered versions of a method.
proof fn lemma_latest<U, S>(
    m: Map<Seq<char>, HandlerEntry<U, S>>,
    package: Seq<char>,
    version: Seq<char>,
    interface: Seq<char>,
    method: Seq<char>,
)
    requires
        package.len() > 0 && !package.contains('/') && !package.contains('@'),
        version.len() > 0 && !version.contains('/'),
        interface.len() > 0 && !interface.contains('/'),
        method.len() > 0,
        !m.dom().contains(unpinned_text(package, interface, method)),
        m.dom().contains(pinned_text(package, version, interface, method)),
        forall|w: Seq<char>|
            w.len() > 0 && !w.contains('/') && m.dom().contains(
                #[trigger] pinned_text(package, w, interface, method),
            ) ==> w == version || version_less(w, version),
    ensures
        resolve(m, unpinned_text(package, interface, method)) == Some(
            m[pinned_text(package, version, interface, method)],
        ),
{
    let name = unpinned_text(package, interface, method);
    let key = pinned_text(package, version, interface, method);
    lemma_unpinned_name(package, interface, method);
    lemma_pinned_name(package, version, interface, method);
    let n = name_of(name)->Some_0;
    assert forall|k: Seq<char>| #[trigger] candidate(m, n, k) implies !version_less(
        version_of(key),
        version_of(k),
    ) by {
        let q = name_of(k)->Some_0;
        let w = q.version->Some_0;
        assert(spells(k, q));
        assert(canonical(q) =~= pinned_text(package, w, interface, method));
        lemma_version_order(w, version, w);
    }
    assert(candidate(m, n, key));
    assert(is_latest(m, name, key));
    latest_unique(m, name, key, choose|k: Seq<char>| is_latest(m, name, k));
}

/// A name without a version is looked up to the handler of the version that all other
/// registered versions of the same package, interface and method come before.
pub proof fn unpinned_name_reaches_latest_version<'a, U, S>(
    reg: &'a MethodRegistry<U, S>,
    name: &str,
    unary: Option<&'a U>,
    streaming: Option<&'a S>,
    package: Seq<char>,
    version: Seq<char>,
    interface: Seq<char>,
    method: Seq<char>,
)
    requires
        call_ensures(MethodRegistry::<U, S>::lookup, (reg, name), unary),
        call_ensures(MethodRegistry::<U, S>::lookup_streaming, (reg, name), streaming),
        name@ == unpinned_text(package, interface, method),
        package.len() > 0 && !package.contains('/') && !package.contains('@'),
        version.len() > 0 && !version.contains('/'),
        interface.len() > 0 && !interface.contains('/'),
        method.len() > 0,
        !reg@.dom().contains(name@),
        reg@.dom().contains(pinned_text(package, version, interface, method)),
        forall|w: Seq<char>|
            w.len() > 0 && !w.contains('/') && reg@.dom().contains(
                #[trigger] pinned_text(package, w, interface, method),
            ) ==> w == version || version_less(w, version),
    ensures
        match reg@[pinned_text(package, version, interface, method)] {
            HandlerEntry::Unary(h) => unary == Some(&h) && streaming is None,
            HandlerEntry::Streaming(h) => streaming == Some(&h) && unary is None,
        },
{
    lemma_latest(reg@, package, version, interface, method);
}

/// Of several semantic versions a name without a version reaches the one with the largest
/// numbers, or the release where the numbers are equal; texts that are no versions stand
/// back.
pub proof fn unpinned_name_reaches_largest_numbers<'a, U, S>(
    reg: &'a MethodRegistry<U, S>,
    name: &str,
    unary: Option<&'a U>,
    streaming: Option<&'a S>,
    package: Seq<char>,
    version: VersionParts,
    interface: Seq<char>,
    method: Seq<char>,
)
    requires
        call_ensures(MethodRegistry::<U, S>::lookup, (reg, name), unary),
        call_ensures(MethodRegistry::<U, S>::lookup_streaming, (reg, name), streaming),
        name@ == unpinned_text(package, interface, method),
        package.len() > 0 && !package.contains('/') && !package.contains('@'),
        sound(version),
        version_text(version).len() > 0 && !version_text(version).contains('/'),
        interface.len() > 0 && !interface.contains('/'),
        method.len() > 0,
        !reg@.dom().contains(name@),
        reg@.dom().contains(pinned_text(package, version_text(version), interface, method)),
        forall|w: Seq<char>|
            w.len() > 0 && !w.contains('/') && reg@.dom().contains(
                #[trigger] pinned_text(package, w, interface, method),
            ) ==> w == version_text(version) || plainly_below(w, version),
    ensures
        match reg@[pinned_text(package, version_text(version), interface, method)] {
            HandlerEntry::Unary(h) => unary == Some(&h) && streaming is None,
            HandlerEntry::Streaming(h) => streaming == Some(&h) && unary is None,
        },
{
    assert forall|w: Seq<char>|
        w.len() > 0 && !w.contains('/') && reg@.dom().contains(
            #[trigger] pinned_text(package, w, interface, method),
        ) implies w == version_text(version) || version_less(w, version_text(version)) by {
        if w != version_text(version) {
            lemma_plainly_below(w, version);
        }
    }
    lemma_latest(reg@, package, version_text(version), interface, method);
}

/// A name without a version is looked up to nothing if no version of the method is
/// registered.
pub proof fn unpinned_name_without_versions<'a, U, S>(
    reg: &'a MethodRegistry<U, S>,
    name: &str,
    unary: Option<&'a U>,
    streaming: Option<&'a S>,
    package: Seq<char>,
    interface: Seq<char>,
    method: Seq<char>,
)
    requires
        call_ensures(MethodRegistry::<U, S>::lookup, (reg, name), unary),
        call_ensures(MethodRegistry::<U, S>::lookup_streaming, (reg, name), streaming),
        name@ == unpinned_text(package, interface, method),
        package.len() > 0 && !package.contains('/') && !package.contains('@'),
        interface.len() > 0 && !interface.contains('/'),
        method.len() > 0,
        !reg@.dom().contains(name@),
        forall|w: Seq<char>|
            !reg@.dom().contains(#[trigger] pinned_text(package, w, interface, method)),
    ensures
        unary is None,
        streaming is None,
{
    lemma_unpinned_name(package, interface, method);
    let n = name_of(name@)->Some_0;
    assert forall|k: Seq<char>| !is_latest(reg@, name@, k) by {
        if is_latest(reg@, name@, k) {
            assert(candidate(reg@, n, k));
            let q = name_of(k)->Some_0;
            assert(spells(k, q));
            assert(canonical(q) =~= pinned_text(package, q.version->Some_0, interface, method));
        }
    }
}

/// The listing of a registry holds each registered name once, in ascending order of the
/// texts, and nothing else; it is as long as the registry is large.
pub proof fn listing_is_the_registered_names<U, S>(
    reg: &MethodRegistry<U, S>,
    names: Vec<String>,
    count: usize,
    empty: bool,
)
    requires
        call_ensures(MethodRegistry::<U, S>::method_names, (reg,), names),
        call_ensures(MethodRegistry::<U, S>::len, (reg,), count),
        call_ensures(MethodRegistry::<U, S>::is_empty, (reg,), empty),
    ensures
        forall|i: int, j: int|
            0 <= i < j < names@.len() ==> text_less(
                (#[trigger] names@[i])@,
                (#[trigger] names@[j])@,
            ),
        forall|k: Seq<char>| #[trigger]
            reg@.dom().contains(k) <==> exists|i: int|
                0 <= i < names@.len() && (#[trigger] names@[i])@ == k,
        names@.len() == count,
        empty <==> count == 0,
{
    let list = texts(names@);
    assert forall|i: int, j: int| 0 <= i < j < names@.len() implies text_less(
        (#[trigger] names@[i])@,
        (#[trigger] names@[j])@,
    ) by {
        assert(list[i] == names@[i]@ && list[j] == names@[j]@);
    }
    assert forall|k: Seq<char>| #[trigger] reg@.dom().contains(k) implies exists|i: int|
        0 <= i < names@.len() && (#[trigger] names@[i])@ == k by {
        let i = choose|i: int| 0 <= i < list.len() && list[i] == k;
        assert(names@[i]@ == k);
    }
    assert forall|k: Seq<char>|
        (exists|i: int| 0 <= i < names@.len() && (#[trigger] names@[i])@ == k)
            implies #[trigger] reg@.dom().contains(k) by {
        let i = choose|i: int| 0 <= i < names@.len() && (#[trigger] names@[i])@ == k;
        assert(list[i] == k);
        assert(list.contains(k));
    }
    assert(list.no_duplicates()) by {
        assert forall|i: int, j: int|
            0 <= i < list.len() && 0 <= j < list.len() && i != j implies list[i] != list[j] by {
            lemma_text_order(list[i], list[j], list[i]);
            if i < j {
                assert(text_less(list[i], list[j]));
            } else {
                assert(text_less(list[j], list[i]));
            }
        }
    }
    list.unique_seq_to_set();
    assert(list.to_set() =~= reg@.dom());
    if count == 0 {
        assert(reg@ =~= Map::<Seq<char>, HandlerEntry<U, S>>::empty());
    }
}

/// An entry is a streaming one if and only if it holds a streaming handler, and a new
/// registry holds nothing.
pub proof fn entries_know_their_kind<U, S>(
    entry: &HandlerEntry<U, S>,
    r: bool,
    fresh: MethodRegistry<U, S>,
)
    requires
        call_ensures(HandlerEntry::<U, S>::is_streaming, (entry,), r),
        call_ensures(MethodRegistry::<U, S>::new, (), fresh),
    ensures
        r <==> *entry is Streaming,
        forall|k: Seq<char>| !(#[trigger] fresh@.dom().contains(k)),
{
}

/// Any text can be parsed, looked up and asked whether it is pinned, and any two compared
/// as versions.
pub proof fn names_take_every_input<U, S>(
    reg: &MethodRegistry<U, S>,
    a: &str,
    b: &str,
    n: &MethodName,
)
    ensures
        call_requires(MethodName::parse, (a,)),
        call_requires(MethodName::to_canonical, (n,)),
        call_requires(is_pinned, (a,)),
        call_requires(MethodRegistry::<U, S>::lookup, (reg, a)),
        call_requires(MethodRegistry::<U, S>::lookup_streaming, (reg, a)),
        call_requires(MethodRegistry::<U, S>::method_names, (reg,)),
        call_requires(order_versions, (a, b)),
{
}

} // verus!
