use my_grpc_extensions::param_type::ParamType;
use my_grpc_extensions::proto_file::{into_snake_case, ProtoServiceDescription};
use my_grpc_extensions::proto_tokens::ProtoTokensReader;
use my_grpc_extensions::stream_name::find_stream_name;

fn all_tokens(src: &str) -> Vec<&str> {
    let mut reader = ProtoTokensReader::new(src);
    let mut result = Vec::new();
    while let Some(token) = reader.get_next() {
        result.push(token);
    }
    result
}

#[test]
fn test_into_camel_case() {
    assert_eq!(into_snake_case("HelloWorld"), "hello_world");
}

#[test]
fn proto_file_reader_test_into_camel_case() {
    assert_eq!(into_snake_case("HelloWorld"), "hello_world");
}

#[test]
fn snake_case_keeps_lower_case_and_digits() {
    assert_eq!(into_snake_case("getV2Items"), "get_v2_items");
    assert_eq!(into_snake_case(""), "");
    assert_eq!(into_snake_case("A"), "a");
}

#[test]
fn test_basic_parse() {
    let src = "service KeyValueFlowsGrpcService { rpc Get(stream keyvalue.GetKeyValueGrpcRequestModel) returns (stream keyvalue.GetKeyValueGrpcResponseModel);}";

    let result = all_tokens(src);

    assert_eq!(result.len(), 16);

    let mut pos = 0;
    assert_eq!(result[pos], "service");

    pos += 1;
    assert_eq!(result[pos], "KeyValueFlowsGrpcService");
    pos += 1;
    assert_eq!(result[pos], "{");
    pos += 1;
    assert_eq!(result[pos], "rpc");
    pos += 1;
    assert_eq!(result[pos], "Get");
    pos += 1;
    assert_eq!(result[pos], "(");
    pos += 1;
    assert_eq!(result[pos], "stream");
    pos += 1;
    assert_eq!(result[pos], "keyvalue.GetKeyValueGrpcRequestModel");
    pos += 1;
    assert_eq!(result[pos], ")");
    pos += 1;
    assert_eq!(result[pos], "returns");
    pos += 1;
    assert_eq!(result[pos], "(");
    pos += 1;
    assert_eq!(result[pos], "stream");
    pos += 1;
    assert_eq!(result[pos], "keyvalue.GetKeyValueGrpcResponseModel");
    pos += 1;
    assert_eq!(result[pos], ")");
    pos += 1;
    assert_eq!(result[pos], ";");
    pos += 1;
    assert_eq!(result[pos], "}");
}

#[test]
fn tokens_skip_comment_lines_and_blanks() {
    let src = "  // a comment ( ;\nsyntax = \"proto3\";\n\t\n//another\nrpc A(B)";
    let result = all_tokens(src);
    assert_eq!(
        result,
        vec!["syntax", "=", "\"proto3\"", ";", "rpc", "A", "(", "B", ")"]
    );
}

#[test]
fn tokens_of_empty_text() {
    assert!(all_tokens("").is_empty());
    assert!(all_tokens("   \n// only\n").is_empty());
}

#[test]
fn test_finding_stream() {
    let content = r#"#[allow(clippy :: async_yields_async, clippy :: diverging_sub_expression,
            clippy :: let_unit_value, clippy :: no_effect_underscore_binding, clippy ::
            shadow_same, clippy :: type_complexity, clippy :: type_repetition_in_bounds,
            clippy :: used_underscore_binding)] fn get_active_withdrawals < 'life0,
            'async_trait >
            (& 'life0 self, request : tonic :: Request < GetActiveWithdrawalsRequest >,)
            -> :: core :: pin :: Pin < Box < dyn :: core :: future :: Future < Output =
            Result < tonic :: Response < Self :: GetActiveWithdrawalsStream >, tonic ::
            Status > > + :: core :: marker :: Send + 'async_trait > > where 'life0 :
            'async_trait, Self : 'async_trait
            {
                Box ::
                pin(async move
                {
                    if let :: core :: option :: Option :: Some(__ret) = :: core :: option
                    :: Option :: None :: < Result < tonic :: Response < Self ::
                    GetActiveWithdrawalsStream >, tonic :: Status > > { return __ret ; }
                    let __self = self ; let request = request ; let __ret : Result < tonic
                    :: Response < Self :: GetActiveWithdrawalsStream >, tonic :: Status >
                    = { let request = request.into_inner() ; todo! ("Implement me") } ;
                    #[allow(unreachable_code)] __ret
                })
            }
        "#;

    let stream_name = find_stream_name(content);

    assert_eq!(stream_name, Some("GetActiveWithdrawalsStream"));
}

#[test]
fn stream_name_after_colons_is_skipped() {
    assert_eq!(find_stream_name("Self :: NameStream"), None);
    assert_eq!(find_stream_name("x NameStream y"), Some("NameStream"));
    assert_eq!(find_stream_name(""), None);
}

#[test]
fn param_type_parses_single_stream_and_empty() {
    match ParamType::parse("stream keyvalue.GetKeyValueGrpcRequestModel") {
        Some(ParamType::Stream(name)) => assert_eq!(name, "GetKeyValueGrpcRequestModel"),
        other => panic!("unexpected {:?}", other),
    }
    match ParamType::parse("  Plain ") {
        Some(ParamType::Single(name)) => assert_eq!(name, "Plain"),
        other => panic!("unexpected {:?}", other),
    }
    match ParamType::parse("google.protobuf.Empty") {
        Some(ParamType::Single(name)) => assert_eq!(name, "()"),
        other => panic!("unexpected {:?}", other),
    }
    assert!(ParamType::parse("").is_none());
    assert!(ParamType::parse("stream stream").is_none());
}

#[test]
fn param_type_accessors() {
    let single = ParamType::parse("a.b.Req").unwrap();
    assert!(!single.is_stream());
    assert_eq!(single.get_name(), "Req");
    assert_eq!(single.get_input_param_invoke(), "input_data");
    assert_eq!(single.get_output_param_type(), "Req");

    let stream = ParamType::parse("stream Resp").unwrap();
    assert!(stream.is_stream());
    assert_eq!(stream.get_input_param_invoke(), "input_data.get_consumer()");
    assert_eq!(stream.get_output_param_type(), "tonic::Streaming<Resp>");
}

#[test]
fn proto_service_is_read_with_ping_left_out() {
    let content = "syntax = \"proto3\";\n// comment\nservice KeyValue {\n  rpc Ping(google.protobuf.Empty) returns (google.protobuf.Empty);\n  rpc GetValues(stream keyvalue.Req) returns (stream keyvalue.Resp);\n  rpc Save(keyvalue.Item) returns (google.protobuf.Empty);\n}\n";
    let desc = ProtoServiceDescription::parse_proto(content).unwrap();
    assert_eq!(desc.get_service_name(), "KeyValue");
    assert_eq!(desc.rpc.len(), 2);
    assert!(desc.has_method("GetValues"));
    assert!(desc.has_method("Save"));
    assert!(!desc.has_method("Ping"));

    let rpc = &desc.rpc[0];
    assert_eq!(rpc.get_fn_name().as_str(), "GetValues");
    assert_eq!(rpc.get_fn_name().as_snake_case(), "get_values");
    match rpc.get_input_param() {
        Some(ParamType::Stream(name)) => assert_eq!(name, "Req"),
        other => panic!("unexpected {:?}", other),
    }
    match rpc.get_output_param() {
        Some(ParamType::Stream(name)) => assert_eq!(name, "Resp"),
        other => panic!("unexpected {:?}", other),
    }
    match desc.rpc[1].get_output_param() {
        Some(ParamType::Single(name)) => assert_eq!(name, "()"),
        other => panic!("unexpected {:?}", other),
    }
}

#[test]
fn proto_without_service_is_refused() {
    assert!(ProtoServiceDescription::parse_proto("rpc A(B) returns (C);").is_none());
}

#[test]
fn snake_case_beyond_ascii() {
    assert_eq!(into_snake_case("ÉtéÀ"), "été_à");
}

#[test]
fn comment_after_unicode_space() {
    let src = "\u{2003}// hidden\n\u{2003}shown";
    assert_eq!(all_tokens(src), vec!["\u{2003}shown"]);
}
