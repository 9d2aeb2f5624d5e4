//! The built-in method that lists the registered methods.
use vstd::prelude::*;

use crate::codec::{
    get_texts, lemma_texts_roundtrip, put_texts, take_texts, texts, texts_field, texts_fit,
    CodecError,
};
use crate::error::{RpcError, RpcErrorView, RpcResult};
use crate::method::{
    canonical, is_listing, lemma_name_of, pinned, well_formed, HandlerEntry, MethodNameView,
    MethodRegistry,
};

verus! {

/// Name of the built-in method that lists the registered methods.
pub const METHOD_SCHEMA_GET: &'static str = "nerw:schema@1.0.0/schema/get";

/// Answer of the built-in method.
#[derive(Clone, Debug, PartialEq, Eq)]
pub struct SchemaResponse {
    /// Names of the registered methods, in ascending order.
    pub methods: Vec<String>,
}

impl View for SchemaResponse {
    type V = Seq<Seq<char>>;

    open spec fn view(&self) -> Seq<Seq<char>> {
        texts(self.methods@)
    }
}

impl Default for SchemaResponse {
    fn default() -> (r: Self)
        ensures
            r@ == Seq::<Seq<char>>::empty(),
    {
        let r = SchemaResponse { methods: Vec::new() };
        assert(r@ =~= Seq::<Seq<char>>::empty());
        r
    }
}

impl SchemaResponse {
    /// The bytes of the answer. [`SchemaResponse::from_bytes`] reads the answer back from
    /// them.
    pub fn to_bytes(&self) -> (r: Vec<u8>)
        ensures
            r@ == texts_field(self@),
            texts_fit(self@),
            take_texts(r@) == Ok::<(Seq<Seq<char>>, Seq<u8>), CodecError>((self@, seq![])),
    {
        let mut buf: Vec<u8> = Vec::new();
        put_texts(&mut buf, &self.methods);
        assert(buf@ =~= texts_field(self@));
        assert(buf@ =~= buf@ + Seq::<u8>::empty());
        proof {
            schema_response_roundtrip(self@, seq![]);
        }
        buf
    }

    /// Reads an answer from the front of a buffer; bytes behind it are ignored.
    pub fn from_bytes(b: &[u8]) -> (r: Result<Self, CodecError>)
        ensures
            match r {
                Ok(v) => take_texts(b@) matches Ok((list, _)) && list == v@,
                Err(e) => take_texts(b@) == Err::<(Seq<Seq<char>>, Seq<u8>), CodecError>(e),
            },
    {
        match get_texts(b) {
            Ok((methods, _)) => Ok(SchemaResponse { methods }),
            Err(e) => Err(e),
        }
    }
}

/// Failure of the built-in method.
#[derive(Clone, Copy, Debug, PartialEq, Eq, Structural)]
pub enum SchemaError {
    /// The registry is gone.
    RegistryGone,
}

impl SchemaError {
    /// Renders the error as a message.
    pub fn to_string(&self) -> (r: String)
        ensures
            r@ == "method registry has been dropped"@,
    {
        "method registry has been dropped".to_owned()
    }
}

/// Handler of the built-in method.
pub struct SchemaHandler;

impl SchemaHandler {
    /// Answers a call, given the registry as far as it still exists. The request bytes
    /// play no part.
    pub fn handle<U, S>(registry: Option<&MethodRegistry<U, S>>) -> (r: RpcResult<Vec<u8>>)
        ensures
            match registry {
                None => r matches Err(e) && e@ == RpcErrorView::Handler(
                    "method registry has been dropped"@,
                ),
                Some(m) => r matches Ok(b) && exists|list: Seq<Seq<char>>| #[trigger]
                    is_listing(list, m@.dom()) && b@ == texts_field(list) && take_texts(b@) == Ok::<
                        (Seq<Seq<char>>, Seq<u8>),
                        CodecError,
                    >((list, seq![])),
            },
    {
        match registry {
            None => Err(RpcError::Handler(SchemaError::RegistryGone.to_string())),
            Some(m) => {
                let response = SchemaResponse { methods: m.method_names() };
                let bytes = response.to_bytes();
                assert(is_listing(response@, m@.dom()) && bytes@ == texts_field(response@));
                Ok(bytes)
            },
        }
    }
}

/// Registers the handler of the built-in method.
pub fn register_schema_method<U, S>(registry: &mut MethodRegistry<U, S>, handler: U)
    ensures
        final(registry)@ == old(registry)@.insert(
            METHOD_SCHEMA_GET@,
            HandlerEntry::Unary(handler),
        ),
{
    proof {
        schema_name_parts();
    }
    registry.register(METHOD_SCHEMA_GET, handler);
}

/// The parts of the built-in method's name.
pub open spec fn schema_name() -> MethodNameView {
    MethodNameView {
        package: "nerw:schema"@,
        version: Some("1.0.0"@),
        interface: "schema"@,
        method: "get"@,
    }
}

/// The name of the built-in method is a method name with a version.
pub proof fn schema_name_parts()
    ensures
        well_formed(schema_name()),
        canonical(schema_name()) == METHOD_SCHEMA_GET@,
        pinned(METHOD_SCHEMA_GET@),
{
    reveal_strlit("nerw:schema@1.0.0/schema/get");
    reveal_strlit("nerw:schema");
    reveal_strlit("1.0.0");
    reveal_strlit("schema");
    reveal_strlit("get");
    assert(canonical(schema_name()) =~= METHOD_SCHEMA_GET@);
    lemma_name_of(METHOD_SCHEMA_GET@, schema_name());
}

/// A list of method names that [`SchemaResponse::to_bytes`] wrote is what
/// [`SchemaResponse::from_bytes`] reads.
pub proof fn schema_response_roundtrip(list: Seq<Seq<char>>, rest: Seq<u8>)
    requires
        texts_fit(list),
    ensures
        take_texts(texts_field(list) + rest) == Ok::<(Seq<Seq<char>>, Seq<u8>), CodecError>(
            (list, rest),
        ),
{
    lemma_texts_roundtrip(list, rest);
}

} // verus!
