use nickel_query::lsp::{
    response_of, Error, Position, INTERNAL_ERROR, INVALID_PARAMS, METHOD_NOT_FOUND,
};

#[test]
fn caller_misuse_maps_to_invalid_params() {
    let errors = [
        Error::SchemeNotSupported(String::from("ftp")),
        Error::InvalidPath(String::from("file:///tmp/../oops")),
        Error::FileNotFound(String::from("file:///missing.ncl")),
        Error::InvalidPosition {
            pos: Position { line: 3, character: 5 },
            file: String::from("file:///a.ncl"),
        },
    ];
    for e in errors {
        let r = response_of(e);
        assert_eq!(r.code, INVALID_PARAMS);
        assert_eq!(r.code, -32602);
    }
}

#[test]
fn unsupported_method_maps_to_method_not_found() {
    let r = response_of(Error::MethodNotFound);
    assert_eq!(r.code, METHOD_NOT_FOUND);
    assert_eq!(r.code, -32601);
    assert_eq!(r.message, "Method not supported");
}

#[test]
fn formatting_failure_maps_to_internal_error() {
    let r = response_of(Error::FormattingFailed {
        details: String::from("no formatter on PATH"),
        file: String::from("file:///a.ncl"),
    });
    assert_eq!(r.code, INTERNAL_ERROR);
    assert_eq!(r.code, -32603);
    assert_eq!(r.message, "formatting failed for file file:///a.ncl: no formatter on PATH");
}

#[test]
fn messages_carry_their_payloads() {
    assert_eq!(
        response_of(Error::SchemeNotSupported(String::from("ftp"))).message,
        "scheme not supported: ftp"
    );
    assert_eq!(
        response_of(Error::InvalidPath(String::from("bad://x"))).message,
        "invalid path: bad://x"
    );
    assert_eq!(
        response_of(Error::FileNotFound(String::from("file:///missing.ncl"))).message,
        "file file:///missing.ncl not found"
    );
    assert_eq!(
        response_of(Error::InvalidPosition {
            pos: Position { line: 12, character: 0 },
            file: String::from("file:///a.ncl"),
        })
        .message,
        "position Position { line: 12, character: 0 } invalid for file file:///a.ncl"
    );
}
