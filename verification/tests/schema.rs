//! The built-in method that lists methods.
use nerw_rpc::codec::CodecError;
use nerw_rpc::error::RpcError;
use nerw_rpc::method::{MethodName, MethodRegistry};
use nerw_rpc::schema::{
    register_schema_method, SchemaError, SchemaHandler, SchemaResponse, METHOD_SCHEMA_GET,
};

#[test]
fn schema_returns_registered_method_names() {
    let mut reg = MethodRegistry::<u32, u32>::new();
    reg.register("foo:app@1.0.0/iface/echo", 1);
    reg.register("bar:app@1.0.0/iface/echo", 2);
    register_schema_method(&mut reg, 3);

    assert_eq!(reg.lookup(METHOD_SCHEMA_GET), Some(&3));
    let out = SchemaHandler::handle(Some(&reg)).expect("ok");
    let decoded = SchemaResponse::from_bytes(&out).expect("decode");
    // 3 methods registered: foo, bar, schema_get itself.
    assert_eq!(decoded.methods.len(), 3);
    assert!(decoded.methods.contains(&METHOD_SCHEMA_GET.to_owned()));
    assert!(decoded
        .methods
        .contains(&"foo:app@1.0.0/iface/echo".to_owned()));
    assert!(decoded
        .methods
        .contains(&"bar:app@1.0.0/iface/echo".to_owned()));
    // Sorted ascending.
    let mut sorted = decoded.methods.clone();
    sorted.sort();
    assert_eq!(decoded.methods, sorted);
}

#[test]
fn schema_response_roundtrips_via_postcard() {
    let original = SchemaResponse {
        methods: vec![
            "nerw:schema@1.0.0/schema/get".to_owned(),
            "nerw:supervisor@1.0.0/agents/list".to_owned(),
        ],
    };
    let bytes = original.to_bytes();
    let decoded = SchemaResponse::from_bytes(&bytes).expect("decode");
    assert_eq!(decoded, original);
    assert_eq!(
        bytes,
        postcard::to_allocvec(&original.methods).expect("encode")
    );
}

#[test]
fn method_name_constant_parses() {
    let parsed = MethodName::parse(METHOD_SCHEMA_GET).expect("canonical");
    assert_eq!(parsed.package, "nerw:schema");
    assert_eq!(parsed.interface, "schema");
    assert_eq!(parsed.method, "get");
}

#[test]
fn a_dropped_registry_is_a_handler_error() {
    assert_eq!(
        SchemaHandler::handle::<u32, u32>(None),
        Err(RpcError::Handler(
            "method registry has been dropped".to_owned()
        ))
    );
    assert_eq!(
        SchemaError::RegistryGone.to_string(),
        "method registry has been dropped"
    );
}

#[test]
fn an_empty_registry_lists_nothing() {
    let reg = MethodRegistry::<u32, u32>::new();
    assert_eq!(SchemaHandler::handle(Some(&reg)), Ok(vec![0]));
    assert_eq!(SchemaResponse::default().methods.len(), 0);
    assert_eq!(SchemaResponse::default().to_bytes(), vec![0]);
}

#[test]
fn streaming_methods_are_listed_too() {
    let mut reg = MethodRegistry::<u32, u32>::new();
    reg.register_streaming("b@1/i/s", 1);
    reg.register("a@1/i/u", 1);
    let out = SchemaHandler::handle(Some(&reg)).expect("ok");
    assert_eq!(
        SchemaResponse::from_bytes(&out).expect("decode").methods,
        vec!["a@1/i/u", "b@1/i/s"]
    );
}

#[test]
fn cut_listings_are_refused() {
    assert_eq!(
        SchemaResponse::from_bytes(&[1, 3, b'a']),
        Err(CodecError::DeserializeUnexpectedEnd)
    );
}
