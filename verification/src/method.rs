//! Method names and the registry that resolves them.
//!
//! A method is named `package[@version]/interface/method`, for instance
//! `tolki:chat@1.0.0/chat/send-message`. Handlers are registered under names that pin a
//! version; a call may leave the version out and then reaches the latest semantic version
//! that is registered for the same package, interface and method.
use vstd::prelude::*;

use crate::codec::texts;
use crate::text::{chars_of, lemma_text_order, order_text, same_text, text_less, TextOrder};
use crate::version::{lemma_version_order, order_versions, version_less};

verus! {

/// A method name, taken apart.
#[derive(Clone, Debug, PartialEq, Eq, Hash)]
pub struct MethodName {
    /// Package, such as `tolki:chat`.
    pub package: String,
    /// Version, such as `1.0.0`; without one the latest registered version is meant.
    pub version: Option<String>,
    /// Interface, such as `chat`.
    pub interface: String,
    /// Method, such as `send-message`.
    pub method: String,
}

/// A [`MethodName`] with its strings taken as texts.
#[verifier::ext_equal]
pub struct MethodNameView {
    pub package: Seq<char>,
    pub version: Option<Seq<char>>,
    pub interface: Seq<char>,
    pub method: Seq<char>,
}

impl View for MethodName {
    type V = MethodNameView;

    open spec fn view(&self) -> MethodNameView {
        MethodNameView {
            package: self.package@,
            version: match self.version {
                Some(v) => Some(v@),
                None => None,
            },
            interface: self.interface@,
            method: self.method@,
        }
    }
}

/// The package with its version, if any.
pub open spec fn package_part(n: MethodNameView) -> Seq<char> {
    match n.version {
        Some(v) => n.package + seq!['@'] + v,
        None => n.package,
    }
}

/// The text of a name: `package[@version]/interface/method`.
pub open spec fn canonical(n: MethodNameView) -> Seq<char> {
    package_part(n) + seq!['/'] + n.interface + seq!['/'] + n.method
}

/// Whether a name keeps to the grammar: no segment is empty, and only the method may
/// hold a `/`, only the version an `@`.
pub open spec fn well_formed(n: MethodNameView) -> bool {
    &&& n.package.len() > 0
    &&& !n.package.contains('/')
    &&& !n.package.contains('@')
    &&& n.version matches Some(v) ==> v.len() > 0 && !v.contains('/')
    &&& n.interface.len() > 0
    &&& !n.interface.contains('/')
    &&& n.method.len() > 0
}

/// Whether `s` is the text of the well-formed name `n`.
pub open spec fn spells(s: Seq<char>, n: MethodNameView) -> bool {
    well_formed(n) && canonical(n) == s
}

/// The well-formed name that `s` spells, if there is one.
pub open spec fn name_of(s: Seq<char>) -> Option<MethodNameView> {
    if exists|n: MethodNameView| spells(s, n) {
        Some(choose|n: MethodNameView| spells(s, n))
    } else {
        None
    }
}

/// Whether `s` is a method name with a version.
pub open spec fn pinned(s: Seq<char>) -> bool {
    name_of(s) matches Some(n) && n.version is Some
}

/// A text splits at its first `c` in one way only.
proof fn lemma_split_unique(a: Seq<char>, b: Seq<char>, x: Seq<char>, y: Seq<char>, c: char)
    requires
        a + seq![c] + b == x + seq![c] + y,
        !a.contains(c),
        !x.contains(c),
    ensures
        a == x,
        b == y,
{
    let s = a + seq![c] + b;
    assert(s[a.len() as int] == c);
    assert(s[x.len() as int] == c);
    if a.len() < x.len() {
        assert(x[a.len() as int] == c);
    }
    if x.len() < a.len() {
        assert(a[x.len() as int] == c);
    }
    assert(a =~= s.take(a.len() as int));
    assert(x =~= s.take(x.len() as int));
    assert(b =~= s.skip(a.len() + 1int));
    assert(y =~= s.skip(x.len() + 1int));
}

/// The three parts of a spelled name, and that the first holds no `/`.
proof fn lemma_spells_parts(s: Seq<char>, n: MethodNameView)
    requires
        spells(s, n),
    ensures
        s == package_part(n) + seq!['/'] + (n.interface + seq!['/'] + n.method),
        !package_part(n).contains('/'),
        package_part(n).len() > 0,
{
    assert(s =~= package_part(n) + seq!['/'] + (n.interface + seq!['/'] + n.method));
    if package_part(n).contains('/') {
        let i = choose|i: int| 0 <= i < package_part(n).len() && package_part(n)[i] == '/';
        if let Some(v) = n.version {
            if i < n.package.len() {
                assert(n.package[i] == '/');
            } else if i > n.package.len() {
                assert(v[i - n.package.len() - 1] == '/');
            }
        }
    }
}

/// No text spells two names.
pub proof fn lemma_spells_unique(s: Seq<char>, a: MethodNameView, b: MethodNameView)
    requires
        spells(s, a),
        spells(s, b),
    ensures
        a == b,
{
    lemma_spells_parts(s, a);
    lemma_spells_parts(s, b);
    let ta = a.interface + seq!['/'] + a.method;
    let tb = b.interface + seq!['/'] + b.method;
    lemma_split_unique(package_part(a), ta, package_part(b), tb, '/');
    lemma_split_unique(a.interface, a.method, b.interface, b.method, '/');
    match (a.version, b.version) {
        (Some(v), Some(w)) => {
            lemma_split_unique(a.package, v, b.package, w, '@');
        },
        (Some(v), None) => {
            assert(package_part(a)[a.package.len() as int] == '@');
        },
        (None, Some(w)) => {
            assert(package_part(b)[b.package.len() as int] == '@');
        },
        (None, None) => {},
    }
}

/// A spelled name is the name of its text.
pub proof fn lemma_name_of(s: Seq<char>, n: MethodNameView)
    requires
        spells(s, n),
    ensures
        name_of(s) == Some(n),
{
    let m = choose|m: MethodNameView| spells(s, m);
    lemma_spells_unique(s, m, n);
}

/// A part of a text lacks what the text lacks.
proof fn lemma_part_lacks(s: Seq<char>, from: int, to: int, c: char)
    requires
        0 <= from <= to <= s.len(),
        !s.contains(c),
    ensures
        !s.subrange(from, to).contains(c),
{
    let part = s.subrange(from, to);
    if part.contains(c) {
        let i = choose|i: int| 0 <= i < part.len() && part[i] == c;
        assert(s[from + i] == c);
    }
}

/// The first position of `c` in `chars` from `from` on and before `to`.
fn find_char(chars: &Vec<char>, from: usize, to: usize, c: char) -> (r: Option<usize>)
    requires
        from <= to <= chars@.len(),
    ensures
        match r {
            Some(i) => {
                &&& from <= i < to
                &&& chars@[i as int] == c
                &&& !chars@.subrange(from as int, i as int).contains(c)
            },
            None => !chars@.subrange(from as int, to as int).contains(c),
        },
{
    let mut i: usize = from;
    while i < to
        invariant
            from <= i <= to <= chars@.len(),
            forall|j: int| from <= j < i ==> chars@[j] != c,
        decreases to - i,
    {
        if chars[i] == c {
            return Some(i);
        }
        i = i + 1;
    }
    None
}

impl MethodName {
    /// Parses a method name; `None` if the text does not keep to the grammar.
    pub fn parse(s: &str) -> (r: Option<Self>)
        ensures
            r is Some <==> name_of(s@) is Some,
            r matches Some(n) ==> name_of(s@) == Some(n@) && spells(s@, n@),
    {
        let chars = chars_of(s);
        let total: usize = chars.len();
        let first: usize = match find_char(&chars, 0, total, '/') {
            Some(i) => i,
            None => {
                proof {
                    assert(chars@.subrange(0, total as int) =~= s@);
                    assert forall|n: MethodNameView| !spells(s@, n) by {
                        if spells(s@, n) {
                            assert(s@[package_part(n).len() as int] == '/');
                        }
                    }
                }
                return None;
            },
        };
        let ghost head = s@.subrange(0, first as int);
        let ghost tail = s@.subrange(first + 1, total as int);
        proof {
            assert(s@ =~= head + seq!['/'] + tail);
            assert forall|n: MethodNameView| #[trigger] spells(s@, n) implies {
                &&& package_part(n) == head
                &&& n.interface + seq!['/'] + n.method == tail
            } by {
                lemma_spells_parts(s@, n);
                lemma_split_unique(
                    package_part(n),
                    n.interface + seq!['/'] + n.method,
                    head,
                    tail,
                    '/',
                );
            }
        }
        let second: usize = match find_char(&chars, first + 1, total, '/') {
            Some(i) => i,
            None => {
                proof {
                    assert forall|n: MethodNameView| !spells(s@, n) by {
                        if spells(s@, n) {
                            assert(tail[n.interface.len() as int] == '/');
                        }
                    }
                }
                return None;
            },
        };
        let ghost mid = s@.subrange(first + 1, second as int);
        let ghost last = s@.subrange(second + 1, total as int);
        proof {
            assert(tail =~= mid + seq!['/'] + last);
            assert forall|n: MethodNameView| #[trigger] spells(s@, n) implies {
                &&& package_part(n) == head
                &&& n.interface == mid
                &&& n.method == last
            } by {
                lemma_split_unique(n.interface, n.method, mid, last, '/');
            }
        }
        if first == 0 || second == first + 1 || second + 1 == total {
            proof {
                assert forall|n: MethodNameView| !spells(s@, n) by {
                    if spells(s@, n) {
                        lemma_spells_parts(s@, n);
                    }
                }
            }
            return None;
        }
        let interface = s.substring_char(first + 1, second).to_owned();
        let method = s.substring_char(second + 1, total).to_owned();
        match find_char(&chars, 0, first, '@') {
            Some(i) => {
                let ghost pkg = s@.subrange(0, i as int);
                let ghost ver = s@.subrange(i + 1, first as int);
                proof {
                    assert(head =~= pkg + seq!['@'] + ver);
                    assert forall|n: MethodNameView| #[trigger] spells(s@, n) implies {
                        &&& n.package == pkg
                        &&& n.version == Some(ver)
                    } by {
                        match n.version {
                            Some(v) => {
                                lemma_split_unique(n.package, v, pkg, ver, '@');
                            },
                            None => {
                                assert(n.package[i as int] == '@');
                            },
                        }
                    }
                }
                if i == 0 || i + 1 == first {
                    return None;
                }
                let package = s.substring_char(0, i).to_owned();
                let version = s.substring_char(i + 1, first).to_owned();
                let name = MethodName { package, version: Some(version), interface, method };
                proof {
                    lemma_part_lacks(head, 0, i as int, '/');
                    lemma_part_lacks(head, i + 1, first as int, '/');
                    assert(head.subrange(0, i as int) =~= pkg);
                    assert(head.subrange(i + 1, first as int) =~= ver);
                    assert(canonical(name@) =~= s@);
                    lemma_name_of(s@, name@);
                }
                Some(name)
            },
            None => {
                let package = s.substring_char(0, first).to_owned();
                let name = MethodName { package, version: None, interface, method };
                proof {
                    assert(canonical(name@) =~= s@);
                    lemma_name_of(s@, name@);
                }
                Some(name)
            },
        }
    }

    /// The text of the name.
    pub fn to_canonical(&self) -> (r: String)
        ensures
            r@ == canonical(self@),
    {
        proof {
            reveal_strlit("@");
            reveal_strlit("/");
            assert("@"@ =~= seq!['@']);
            assert("/"@ =~= seq!['/']);
        }
        let mut out = self.package.clone();
        if let Some(v) = &self.version {
            out.append("@");
            out.append(v.as_str());
        }
        out.append("/");
        out.append(self.interface.as_str());
        out.append("/");
        out.append(self.method.as_str());
        out
    }
}

/// Whether `name` is a method name with a version, so that a handler can be registered
/// under it.
pub fn is_pinned(name: &str) -> (r: bool)
    ensures
        r == pinned(name@),
{
    match MethodName::parse(name) {
        Some(n) => n.version.is_some(),
        None => false,
    }
}

/// What a method is registered with.
pub enum HandlerEntry<U, S> {
    /// A unary handler.
    Unary(U),
    /// A streaming handler.
    Streaming(S),
}

impl<U, S> HandlerEntry<U, S> {
    /// Whether the entry holds a streaming handler.
    pub fn is_streaming(&self) -> (r: bool)
        ensures
            r == (self is Streaming),
    {
        matches!(self, HandlerEntry::Streaming(_))
    }
}

/// Handlers by the full name of their method.
///
/// The entries are kept in ascending order of their names, so no name occurs twice.
pub struct MethodRegistry<U, S> {
    entries: Vec<(String, HandlerEntry<U, S>)>,
}

/// Entries in strictly ascending order of their names.
spec fn ascending<U, S>(e: Seq<(String, HandlerEntry<U, S>)>) -> bool {
    forall|i: int, j: int|
        #![trigger e[i], e[j]]
        0 <= i < j < e.len() ==> text_less(e[i].0@, e[j].0@)
}

/// Whether the entry at `i` has the name `k`.
spec fn holds<U, S>(e: Seq<(String, HandlerEntry<U, S>)>, k: Seq<char>, i: int) -> bool {
    0 <= i < e.len() && e[i].0@ == k
}

/// The entries as a map.
spec fn as_map<U, S>(e: Seq<(String, HandlerEntry<U, S>)>) -> Map<Seq<char>, HandlerEntry<U, S>> {
    Map::new(
        |k: Seq<char>| exists|i: int| holds(e, k, i),
        |k: Seq<char>| e[choose|i: int| holds(e, k, i)].1,
    )
}

impl<U, S> View for MethodRegistry<U, S> {
    type V = Map<Seq<char>, HandlerEntry<U, S>>;

    closed spec fn view(&self) -> Map<Seq<char>, HandlerEntry<U, S>> {
        as_map(self.entries@)
    }
}

/// Whether `k` is registered, names the same package, interface and method as `n`, and
/// pins a version.
pub open spec fn candidate<E>(m: Map<Seq<char>, E>, n: MethodNameView, k: Seq<char>) -> bool {
    &&& m.dom().contains(k)
    &&& name_of(k) matches Some(q) && {
        &&& q.version is Some
        &&& q.package == n.package
        &&& q.interface == n.interface
        &&& q.method == n.method
    }
}

/// The version that `k` pins.
pub open spec fn version_of(k: Seq<char>) -> Seq<char> {
    name_of(k)->Some_0.version->Some_0
}

/// Whether `name` leaves the version out and `k` is the candidate with the latest one.
pub open spec fn is_latest<E>(m: Map<Seq<char>, E>, name: Seq<char>, k: Seq<char>) -> bool {
    &&& name_of(name) matches Some(n) && {
        &&& n.version is None
        &&& candidate(m, n, k)
        &&& forall|k2: Seq<char>| #[trigger]
            candidate(m, n, k2) ==> !version_less(version_of(k), version_of(k2))
    }
}

/// The registered name that `name` resolves to: itself, or the latest version of a name
/// that leaves the version out.
pub open spec fn resolved_name<E>(m: Map<Seq<char>, E>, name: Seq<char>) -> Option<Seq<char>> {
    if m.dom().contains(name) {
        Some(name)
    } else if exists|k: Seq<char>| is_latest(m, name, k) {
        Some(choose|k: Seq<char>| is_latest(m, name, k))
    } else {
        None
    }
}

/// The entry that `name` resolves to.
pub open spec fn resolve<U, S>(
    m: Map<Seq<char>, HandlerEntry<U, S>>,
    name: Seq<char>,
) -> Option<HandlerEntry<U, S>> {
    match resolved_name(m, name) {
        Some(k) => Some(m[k]),
        None => None,
    }
}

/// The unary handler that `name` resolves to.
pub open spec fn resolve_unary<U, S>(
    m: Map<Seq<char>, HandlerEntry<U, S>>,
    name: Seq<char>,
) -> Option<U> {
    match resolve(m, name) {
        Some(HandlerEntry::Unary(h)) => Some(h),
        _ => None,
    }
}

/// The streaming handler that `name` resolves to.
pub open spec fn resolve_streaming<U, S>(
    m: Map<Seq<char>, HandlerEntry<U, S>>,
    name: Seq<char>,
) -> Option<S> {
    match resolve(m, name) {
        Some(HandlerEntry::Streaming(h)) => Some(h),
        _ => None,
    }
}

/// Whether `l` lists `names` in ascending order, each once.
pub open spec fn is_listing(l: Seq<Seq<char>>, names: Set<Seq<char>>) -> bool {
    &&& forall|i: int, j: int|
        #![trigger l[i], l[j]]
        0 <= i < j < l.len() ==> text_less(l[i], l[j])
    &&& forall|k: Seq<char>| #[trigger] names.contains(k) <==> l.contains(k)
}

/// Names are listed in ascending order in one way only.
pub proof fn listing_unique(a: Seq<Seq<char>>, b: Seq<Seq<char>>, names: Set<Seq<char>>)
    requires
        is_listing(a, names),
        is_listing(b, names),
    ensures
        a == b,
    decreases a.len(),
{
    if a.len() == 0 || b.len() == 0 {
        if a.len() > 0 {
            assert(a.contains(a[0]));
            assert(names.contains(a[0]));
        }
        if b.len() > 0 {
            assert(b.contains(b[0]));
            assert(names.contains(b[0]));
        }
        assert(a =~= b);
    } else {
        let (x, y) = (a.last(), b.last());
        assert(a.contains(x) && b.contains(y));
        assert(names.contains(x) && names.contains(y));
        let i = choose|i: int| 0 <= i < b.len() && b[i] == x;
        let j = choose|j: int| 0 <= j < a.len() && a[j] == y;
        lemma_text_order(x, y, x);
        if i < b.len() - 1 {
            assert(text_less(b[i], b[b.len() - 1]));
        }
        if j < a.len() - 1 {
            assert(text_less(a[j], a[a.len() - 1]));
        }
        assert(x == y);
        lemma_listing_drop_last(a, names);
        lemma_listing_drop_last(b, names);
        listing_unique(a.drop_last(), b.drop_last(), names.remove(x));
        assert(a =~= a.drop_last().push(x));
        assert(b =~= b.drop_last().push(x));
    }
}

proof fn lemma_listing_drop_last(a: Seq<Seq<char>>, names: Set<Seq<char>>)
    requires
        is_listing(a, names),
        a.len() > 0,
    ensures
        is_listing(a.drop_last(), names.remove(a.last())),
{
    let t = a.drop_last();
    assert forall|k: Seq<char>| #[trigger] names.remove(a.last()).contains(k) <==> t.contains(k) by {
        if names.contains(k) && k != a.last() {
            let i = choose|i: int| 0 <= i < a.len() && a[i] == k;
            assert(t[i] == k);
        }
        if t.contains(k) {
            let i = choose|i: int| 0 <= i < t.len() && t[i] == k;
            assert(a[i] == k);
            assert(a.contains(k));
            lemma_text_order(k, k, k);
            assert(text_less(a[i], a[a.len() - 1]));
        }
    }
}

/// In ascending entries a name stands at one place only.
proof fn lemma_holds_unique<U, S>(
    e: Seq<(String, HandlerEntry<U, S>)>,
    k: Seq<char>,
    i: int,
    j: int,
)
    requires
        ascending(e),
        holds(e, k, i),
        holds(e, k, j),
    ensures
        i == j,
{
    lemma_text_order(k, k, k);
    if i < j {
        assert(text_less(e[i].0@, e[j].0@));
    }
    if j < i {
        assert(text_less(e[j].0@, e[i].0@));
    }
}

/// The entry of a name is what the map holds for it.
proof fn lemma_as_map_entry<U, S>(e: Seq<(String, HandlerEntry<U, S>)>, i: int)
    requires
        ascending(e),
        0 <= i < e.len(),
    ensures
        as_map(e).dom().contains(e[i].0@),
        as_map(e)[e[i].0@] == e[i].1,
{
    let k = e[i].0@;
    assert(holds(e, k, i));
    let j = choose|j: int| holds(e, k, j);
    lemma_holds_unique(e, k, i, j);
}

/// Two names with the same package, interface, method and version are the same.
proof fn lemma_same_version_same_name<E>(
    m: Map<Seq<char>, E>,
    n: MethodNameView,
    a: Seq<char>,
    b: Seq<char>,
)
    requires
        candidate(m, n, a),
        candidate(m, n, b),
        version_of(a) == version_of(b),
    ensures
        a == b,
{
    let p = choose|q: MethodNameView| spells(a, q);
    let q = choose|q: MethodNameView| spells(b, q);
    assert(spells(a, p));
    assert(spells(b, q));
    assert(p == q);
}

/// At most one registered name is the latest.
pub proof fn latest_unique<E>(
    m: Map<Seq<char>, E>,
    name: Seq<char>,
    a: Seq<char>,
    b: Seq<char>,
)
    requires
        is_latest(m, name, a),
        is_latest(m, name, b),
    ensures
        a == b,
{
    let n = name_of(name)->Some_0;
    assert(candidate(m, n, a));
    assert(candidate(m, n, b));
    lemma_version_order(version_of(a), version_of(b), version_of(a));
    lemma_same_version_same_name(m, n, a, b);
}

impl<U, S> MethodRegistry<U, S> {
    #[verifier::type_invariant]
    spec fn inv(self) -> bool {
        &&& ascending(self.entries@)
        &&& forall|i: int| 0 <= i < self.entries@.len() ==> pinned((#[trigger] self.entries@[i]).0@)
    }

    /// An empty registry.
    pub fn new() -> (r: Self)
        ensures
            r@ == Map::<Seq<char>, HandlerEntry<U, S>>::empty(),
    {
        let r = MethodRegistry { entries: Vec::new() };
        assert(r@ =~= Map::<Seq<char>, HandlerEntry<U, S>>::empty());
        r
    }

    /// Puts `entry` in the place of `name`, replacing what stood there.
    fn put(&mut self, name: &str, entry: HandlerEntry<U, S>)
        requires
            pinned(name@),
        ensures
            final(self)@ == old(self)@.insert(name@, entry),
    {
        proof {
            use_type_invariant(&*self);
        }
        let mut entries: Vec<(String, HandlerEntry<U, S>)> = Vec::new();
        std::mem::swap(&mut entries, &mut self.entries);
        let ghost before = entries@;
        let mut i: usize = 0;
        let mut same: bool = false;
        while i < entries.len()
            invariant_except_break
                !same,
            invariant
                i <= entries@.len(),
                entries@ == before,
                forall|j: int| 0 <= j < i ==> text_less((#[trigger] before[j]).0@, name@),
            ensures
                same ==> i < before.len() && before[i as int].0@ == name@,
                !same ==> (i < before.len() ==> text_less(name@, before[i as int].0@)),
            decreases entries@.len() - i,
        {
            match order_text(entries[i].0.as_str(), name) {
                TextOrder::Before => {
                    i = i + 1;
                },
                TextOrder::Same => {
                    same = true;
                    break;
                },
                TextOrder::After => {
                    break;
                },
            }
        }
        if same {
            let _ = entries.remove(i);
        }
        let ghost cut = entries@;
        entries.insert(i, (name.to_owned(), entry));
        let ghost after = entries@;
        proof {
            assert(forall|j: int| 0 <= j < i ==> cut[j] == before[j]);
            let skip: int = if same {
                1
            } else {
                0
            };
            assert(forall|j: int| i <= j < cut.len() ==> #[trigger] cut[j] == before[j + skip]);
            assert forall|j: int| i <= j < cut.len() implies text_less(
                name@,
                (#[trigger] cut[j]).0@,
            ) by {
                if same {
                    assert(text_less(before[i as int].0@, before[j + 1].0@));
                } else if j > i {
                    assert(text_less(before[i as int].0@, before[j].0@));
                    lemma_text_order(name@, before[i as int].0@, before[j].0@);
                }
            }
            assert(after[i as int].0@ == name@);
            assert(forall|j: int| 0 <= j < i ==> after[j] == before[j]);
            assert(forall|j: int| i < j < after.len() ==> #[trigger] after[j] == cut[j - 1]);
            assert(forall|j: int|
                i < j < after.len() ==> #[trigger] after[j] == before[j - 1 + skip]);
            assert forall|a: int, b: int|
                #![trigger after[a], after[b]]
                0 <= a < b < after.len() implies text_less(after[a].0@, after[b].0@) by {
                if a < i && b == i {
                    assert(text_less(before[a].0@, name@));
                } else if a == i && b > i {
                    assert(text_less(name@, cut[b - 1].0@));
                } else if a < i && b < i {
                    assert(text_less(before[a].0@, before[b].0@));
                } else if a < i {
                    assert(text_less(before[a].0@, before[b - 1 + skip].0@));
                } else {
                    assert(text_less(before[a - 1 + skip].0@, before[b - 1 + skip].0@));
                }
            }
            lemma_put_map(before, after, i as int, skip, name@, entry);
        }
        self.entries = entries;
        assert(self@ =~= old(self)@.insert(name@, entry));
    }

    /// Registers a unary handler; a handler under the same name is replaced.
    pub fn register(&mut self, canonical_name: &str, handler: U)
        requires
            pinned(canonical_name@),
        ensures
            final(self)@ == old(self)@.insert(canonical_name@, HandlerEntry::Unary(handler)),
    {
        self.put(canonical_name, HandlerEntry::Unary(handler));
    }

    /// Registers a streaming handler; a handler under the same name is replaced.
    pub fn register_streaming(&mut self, canonical_name: &str, handler: S)
        requires
            pinned(canonical_name@),
        ensures
            final(self)@ == old(self)@.insert(canonical_name@, HandlerEntry::Streaming(handler)),
    {
        self.put(canonical_name, HandlerEntry::Streaming(handler));
    }

    /// The place of the entry that `name` resolves to.
    fn find(&self, name: &str) -> (r: Option<usize>)
        ensures
            match r {
                Some(i) => i < self.entries@.len() && resolved_name(self@, name@) == Some(
                    self.entries@[i as int].0@,
                ),
                None => resolved_name(self@, name@) is None,
            },
    {
        proof {
            use_type_invariant(self);
        }
        let ghost e = self.entries@;
        let mut i: usize = 0;
        while i < self.entries.len()
            invariant
                i <= self.entries@.len(),
                e == self.entries@,
                self@ == as_map(e),
                ascending(e),
                forall|j: int| 0 <= j < i ==> (#[trigger] e[j]).0@ != name@,
            decreases self.entries@.len() - i,
        {
            if same_text(self.entries[i].0.as_str(), name) {
                proof {
                    lemma_as_map_entry(e, i as int);
                }
                return Some(i);
            }
            i = i + 1;
        }
        assert(!self@.dom().contains(name@)) by {
            if self@.dom().contains(name@) {
                let j = choose|j: int| holds(e, name@, j);
                assert(e[j].0@ == name@);
            }
        }
        let wanted = match MethodName::parse(name) {
            Some(n) => n,
            None => return None,
        };
        if wanted.version.is_some() {
            return None;
        }
        let ghost n = wanted@;
        let mut best: Option<(usize, String)> = None;
        let mut i: usize = 0;
        while i < self.entries.len()
            invariant
                i <= self.entries@.len(),
                e == self.entries@,
                self@ == as_map(e),
                ascending(e),
                forall|j: int| 0 <= j < e.len() ==> pinned((#[trigger] e[j]).0@),
                n == wanted@,
                match best {
                    None => forall|j: int| 0 <= j < i ==> !candidate(self@, n, (#[trigger] e[j]).0@),
                    Some((b, v)) => {
                        &&& b < i
                        &&& candidate(self@, n, e[b as int].0@)
                        &&& v@ == version_of(e[b as int].0@)
                        &&& forall|j: int|
                            0 <= j < i && candidate(self@, n, (#[trigger] e[j]).0@) ==> !version_less(
                                v@,
                                version_of(e[j].0@),
                            )
                    },
                },
            decreases self.entries@.len() - i,
        {
            proof {
                lemma_as_map_entry(e, i as int);
                assert(pinned(e[i as int].0@));
            }
            if let Some(q) = MethodName::parse(self.entries[i].0.as_str()) {
                if let Some(v) = q.version {
                    if same_text(q.package.as_str(), wanted.package.as_str()) && same_text(
                        q.interface.as_str(),
                        wanted.interface.as_str(),
                    ) && same_text(q.method.as_str(), wanted.method.as_str()) {
                        assert(candidate(self@, n, e[i as int].0@));
                        let better = match &best {
                            None => true,
                            Some((_, w)) => matches!(
                                order_versions(w.as_str(), v.as_str()),
                                TextOrder::Before
                            ),
                        };
                        if better {
                            proof {
                                lemma_version_order(v@, v@, v@);
                                if let Some((_, w)) = best {
                                    assert forall|j: int|
                                        0 <= j < i && candidate(
                                            self@,
                                            n,
                                            (#[trigger] e[j]).0@,
                                        ) implies !version_less(v@, version_of(e[j].0@)) by {
                                        lemma_version_order(w@, v@, version_of(e[j].0@));
                                    }
                                }
                            }
                            best = Some((i, v));
                        }
                    } else {
                        assert(!candidate(self@, n, e[i as int].0@));
                    }
                }
            }
            i = i + 1;
        }
        match best {
            Some((b, _)) => {
                proof {
                    let k = e[b as int].0@;
                    assert forall|k2: Seq<char>| #[trigger] candidate(self@, n, k2) implies !version_less(
                        version_of(k),
                        version_of(k2),
                    ) by {
                        let j = choose|j: int| holds(e, k2, j);
                        assert(e[j].0@ == k2);
                    }
                    assert(is_latest(self@, name@, k));
                    latest_unique(
                        self@,
                        name@,
                        k,
                        choose|k: Seq<char>| is_latest(self@, name@, k),
                    );
                }
                Some(b)
            },
            None => {
                proof {
                    assert forall|k: Seq<char>| !is_latest(self@, name@, k) by {
                        if is_latest(self@, name@, k) {
                            let j = choose|j: int| holds(e, k, j);
                            assert(e[j].0@ == k);
                        }
                    }
                }
                None
            },
        }
    }

    /// The unary handler that `name` resolves to, if it resolves to one.
    pub fn lookup(&self, name: &str) -> (r: Option<&U>)
        ensures
            match r {
                Some(h) => resolve_unary(self@, name@) == Some(*h),
                None => resolve_unary(self@, name@) is None,
            },
    {
        match self.find(name) {
            Some(i) => {
                proof {
                    use_type_invariant(self);
                    lemma_as_map_entry(self.entries@, i as int);
                }
                match &self.entries[i].1 {
                    HandlerEntry::Unary(h) => Some(h),
                    HandlerEntry::Streaming(_) => None,
                }
            },
            None => None,
        }
    }

    /// The streaming handler that `name` resolves to, if it resolves to one.
    pub fn lookup_streaming(&self, name: &str) -> (r: Option<&S>)
        ensures
            match r {
                Some(h) => resolve_streaming(self@, name@) == Some(*h),
                None => resolve_streaming(self@, name@) is None,
            },
    {
        match self.find(name) {
            Some(i) => {
                proof {
                    use_type_invariant(self);
                    lemma_as_map_entry(self.entries@, i as int);
                }
                match &self.entries[i].1 {
                    HandlerEntry::Unary(_) => None,
                    HandlerEntry::Streaming(h) => Some(h),
                }
            },
            None => None,
        }
    }

    /// Whether nothing is registered.
    pub fn is_empty(&self) -> (r: bool)
        ensures
            r == (self@ == Map::<Seq<char>, HandlerEntry<U, S>>::empty()),
    {
        proof {
            use_type_invariant(self);
            if self.entries@.len() > 0 {
                lemma_as_map_entry(self.entries@, 0);
            } else {
                assert(self@ =~= Map::<Seq<char>, HandlerEntry<U, S>>::empty());
            }
        }
        self.entries.len() == 0
    }

    /// How many methods are registered.
    pub fn len(&self) -> (r: usize)
        ensures
            self@.dom().finite(),
            r == self@.len(),
    {
        proof {
            use_type_invariant(self);
            lemma_map_len(self.entries@);
        }
        self.entries.len()
    }

    /// The names of all registered methods, in ascending order.
    pub fn method_names(&self) -> (r: Vec<String>)
        ensures
            is_listing(texts(r@), self@.dom()),
            forall|i: int| 0 <= i < r@.len() ==> pinned(#[trigger] texts(r@)[i]),
    {
        proof {
            use_type_invariant(self);
        }
        let ghost e = self.entries@;
        let mut out: Vec<String> = Vec::new();
        let mut i: usize = 0;
        while i < self.entries.len()
            invariant
                i <= self.entries@.len(),
                e == self.entries@,
                out@.len() == i,
                forall|j: int| 0 <= j < i ==> (#[trigger] out@[j])@ == e[j].0@,
            decreases self.entries@.len() - i,
        {
            out.push(self.entries[i].0.clone());
            i = i + 1;
        }
        proof {
            let names = texts(out@);
            assert forall|j: int| 0 <= j < names.len() implies #[trigger] names[j] == e[j].0@ by {
                assert(out@[j]@ == e[j].0@);
            }
            assert forall|k: Seq<char>| #[trigger] self@.dom().contains(k) <==> names.contains(
                k,
            ) by {
                if names.contains(k) {
                    let j = choose|j: int| 0 <= j < names.len() && names[j] == k;
                    assert(holds(e, k, j));
                }
                if self@.dom().contains(k) {
                    let j = choose|j: int| holds(e, k, j);
                    assert(names[j] == k);
                }
            }
        }
        out
    }
}

/// A map of ascending entries has as many keys as there are entries.
proof fn lemma_map_len<U, S>(e: Seq<(String, HandlerEntry<U, S>)>)
    requires
        ascending(e),
    ensures
        as_map(e).dom().finite(),
        as_map(e).len() == e.len(),
{
    let keys = e.map_values(|p: (String, HandlerEntry<U, S>)| p.0@);
    assert(keys.no_duplicates()) by {
        assert forall|i: int, j: int| 0 <= i < keys.len() && 0 <= j < keys.len() && i != j implies keys[i]
            != keys[j] by {
            if keys[i] == keys[j] {
                assert(holds(e, keys[i], i));
                assert(holds(e, keys[i], j));
                lemma_holds_unique(e, keys[i], i, j);
            }
        }
    }
    keys.unique_seq_to_set();
    assert forall|k: Seq<char>| #[trigger] as_map(e).dom().contains(k) <==> keys.to_set().contains(
        k,
    ) by {
        if as_map(e).dom().contains(k) {
            let i = choose|i: int| holds(e, k, i);
            assert(keys[i] == k);
        }
        if keys.contains(k) {
            let i = choose|i: int| 0 <= i < keys.len() && keys[i] == k;
            assert(holds(e, k, i));
        }
    }
    assert(as_map(e).dom() =~= keys.to_set());
}

/// Parsing the text of a well-formed name gives the name back.
pub proof fn parse_of_canonical(n: MethodNameView)
    requires
        well_formed(n),
    ensures
        name_of(canonical(n)) == Some(n),
{
    lemma_name_of(canonical(n), n);
}

/// The text of a parsed name is the text that was parsed.
pub proof fn canonical_of_parse(s: Seq<char>)
    ensures
        name_of(s) matches Some(n) ==> well_formed(n) && canonical(n) == s,
{
}

/// A registered name resolves to its own entry, whatever other versions there are.
pub proof fn registered_name_resolves<U, S>(
    m: Map<Seq<char>, HandlerEntry<U, S>>,
    name: Seq<char>,
    entry: HandlerEntry<U, S>,
)
    ensures
        resolve(m.insert(name, entry), name) == Some(entry),
{
}

/// A name that pins a version which is not registered resolves to nothing: there is no
/// falling back to another version.
pub proof fn pinned_miss_resolves_to_nothing<U, S>(
    m: Map<Seq<char>, HandlerEntry<U, S>>,
    name: Seq<char>,
)
    requires
        pinned(name),
        !m.dom().contains(name),
    ensures
        resolve(m, name) is None,
{
}

/// A text that is no method name resolves to nothing in a registry, whose names all pin
/// a version.
pub proof fn malformed_name_resolves_to_nothing<U, S>(
    m: Map<Seq<char>, HandlerEntry<U, S>>,
    name: Seq<char>,
)
    requires
        forall|k: Seq<char>| #[trigger] m.dom().contains(k) ==> pinned(k),
        name_of(name) is None,
    ensures
        resolve(m, name) is None,
{
}

/// Registering a version later than every other one makes it the one that the name
/// without a version resolves to.
pub proof fn newest_version_wins<U, S>(
    m: Map<Seq<char>, HandlerEntry<U, S>>,
    n: MethodNameView,
    version: Seq<char>,
    entry: HandlerEntry<U, S>,
)
    requires
        forall|k: Seq<char>| #[trigger] m.dom().contains(k) ==> pinned(k),
        well_formed(n),
        n.version is None,
        version.len() > 0,
        !version.contains('/'),
        forall|k: Seq<char>| #[trigger] candidate(m, n, k) ==> !version_less(version, version_of(k)),
    ensures
        resolve(
            m.insert(canonical(MethodNameView { version: Some(version), ..n }), entry),
            canonical(n),
        ) == Some(entry),
{
    let full = MethodNameView { version: Some(version), ..n };
    let key = canonical(full);
    let after = m.insert(key, entry);
    lemma_name_of(key, full);
    lemma_name_of(canonical(n), n);
    assert(!after.dom().contains(canonical(n))) by {
        assert(!pinned(canonical(n)));
        assert(pinned(key));
    }
    assert forall|k: Seq<char>| #[trigger] candidate(after, n, k) implies !version_less(
        version_of(key),
        version_of(k),
    ) by {
        if k == key {
            lemma_version_order(version, version, version);
        } else {
            assert(candidate(m, n, k));
        }
    }
    assert(is_latest(after, canonical(n), key));
    latest_unique(
        after,
        canonical(n),
        key,
        choose|k: Seq<char>| is_latest(after, canonical(n), k),
    );
}

/// One of finitely many names has the latest version.
proof fn lemma_latest_version(s: Set<Seq<char>>) -> (k: Seq<char>)
    requires
        s.finite(),
        s.len() > 0,
    ensures
        s.contains(k),
        forall|k2: Seq<char>| #[trigger]
            s.contains(k2) ==> !version_less(version_of(k), version_of(k2)),
    decreases s.len(),
{
    let x = s.choose();
    let rest = s.remove(x);
    lemma_version_order(version_of(x), version_of(x), version_of(x));
    if rest.len() == 0 {
        assert forall|k2: Seq<char>| #[trigger] s.contains(k2) implies k2 == x by {
            if k2 != x {
                assert(rest.contains(k2));
            }
        }
        x
    } else {
        let y = lemma_latest_version(rest);
        let k = if version_less(version_of(y), version_of(x)) {
            x
        } else {
            y
        };
        assert forall|k2: Seq<char>| #[trigger] s.contains(k2) implies !version_less(
            version_of(k),
            version_of(k2),
        ) by {
            if k2 != x {
                assert(rest.contains(k2));
                lemma_version_order(version_of(y), version_of(x), version_of(k2));
            }
        }
        k
    }
}

/// A name without a version resolves as soon as one version is registered, and to one that
/// is not earlier.
pub proof fn any_version_resolves<U, S>(
    m: Map<Seq<char>, HandlerEntry<U, S>>,
    n: MethodNameView,
    k: Seq<char>,
)
    requires
        m.dom().finite(),
        forall|k: Seq<char>| #[trigger] m.dom().contains(k) ==> pinned(k),
        well_formed(n),
        n.version is None,
        candidate(m, n, k),
    ensures
        resolved_name(m, canonical(n)) matches Some(latest) && {
            &&& candidate(m, n, latest)
            &&& !version_less(version_of(latest), version_of(k))
        },
{
    let name = canonical(n);
    lemma_name_of(name, n);
    assert(!m.dom().contains(name)) by {
        assert(!pinned(name));
    }
    let versions = m.dom().filter(|k: Seq<char>| candidate(m, n, k));
    assert(versions.contains(k));
    assert(versions.len() > 0) by {
        if versions.len() == 0 {
            assert(versions =~= Set::empty());
        }
    }
    let latest = lemma_latest_version(versions);
    assert forall|k2: Seq<char>| #[trigger] candidate(m, n, k2) implies !version_less(
        version_of(latest),
        version_of(k2),
    ) by {
        assert(versions.contains(k2));
    }
    assert(is_latest(m, name, latest));
    latest_unique(m, name, latest, choose|k: Seq<char>| is_latest(m, name, k));
}

/// Registering one name leaves what every other pinned name resolves to as it was.
pub proof fn register_leaves_other_names<U, S>(
    m: Map<Seq<char>, HandlerEntry<U, S>>,
    name: Seq<char>,
    entry: HandlerEntry<U, S>,
    other: Seq<char>,
)
    requires
        pinned(other),
        other != name,
    ensures
        resolve(m.insert(name, entry), other) == resolve(m, other),
{
}

/// What putting an entry in does to the map.
proof fn lemma_put_map<U, S>(
    before: Seq<(String, HandlerEntry<U, S>)>,
    after: Seq<(String, HandlerEntry<U, S>)>,
    at: int,
    skip: int,
    name: Seq<char>,
    entry: HandlerEntry<U, S>,
)
    requires
        skip == 0 || skip == 1,
        0 <= at <= before.len() - skip,
        after.len() == before.len() - skip + 1,
        ascending(before),
        ascending(after),
        skip == 1 ==> before[at].0@ == name,
        after[at].0@ == name,
        after[at].1 == entry,
        forall|j: int| 0 <= j < at ==> after[j] == before[j],
        forall|j: int| at < j < after.len() ==> #[trigger] after[j] == before[j - 1 + skip],
    ensures
        as_map(after) == as_map(before).insert(name, entry),
{
    let m = as_map(before).insert(name, entry);
    assert forall|k: Seq<char>| #[trigger] as_map(after).dom().contains(k) <==> m.dom().contains(
        k,
    ) by {
        if as_map(after).dom().contains(k) {
            let i = choose|i: int| holds(after, k, i);
            if i < at {
                assert(holds(before, k, i));
            } else if i > at {
                assert(holds(before, k, i - 1 + skip));
            }
        }
        if as_map(before).dom().contains(k) {
            let i = choose|i: int| holds(before, k, i);
            if i < at {
                assert(holds(after, k, i));
            } else if i == at && skip == 1 {
                assert(holds(after, k, at));
            } else {
                assert(after[i + 1 - skip] == before[i]);
                assert(holds(after, k, i + 1 - skip));
            }
        }
        assert(holds(after, name, at));
    }
    assert forall|k: Seq<char>| #[trigger] as_map(after).dom().contains(k) implies as_map(after)[k]
        == m[k] by {
        let i = choose|i: int| holds(after, k, i);
        lemma_as_map_entry(after, i);
        if i == at {
            assert(k == name);
        } else {
            if k == name {
                lemma_holds_unique(after, k, i, at);
            }
            if i < at {
                lemma_as_map_entry(before, i);
            } else {
                lemma_as_map_entry(before, i - 1 + skip);
            }
        }
    }
    assert(as_map(after) =~= m);
}

} // verus!
