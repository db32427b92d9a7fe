use vstd::prelude::*;
use vstd::string::StringExecFns;
use crate::error::Error;
use crate::pool::ServerDescriptor;

verus! {

/// Version segment of every manifest URL.
pub const MANIFEST_VERSION: u64 = 5;

/// The character of one decimal digit.
pub open spec fn dec_digit(d: int) -> char {
    if d == 0 {
        '0'
    } else if d == 1 {
        '1'
    } else if d == 2 {
        '2'
    } else if d == 3 {
        '3'
    } else if d == 4 {
        '4'
    } else if d == 5 {
        '5'
    } else if d == 6 {
        '6'
    } else if d == 7 {
        '7'
    } else if d == 8 {
        '8'
    } else {
        '9'
    }
}

/// The decimal digits of a non-negative number, most significant
/// first.
pub open spec fn dec_str(n: int) -> Seq<char>
    decreases n,
{
    if n < 10 {
        seq![dec_digit(n)]
    } else {
        dec_str(n / 10) + seq![dec_digit(n % 10)]
    }
}

fn digit_str(d: u64) -> (r: &'static str)
    requires
        d < 10,
    ensures
        r@ == seq![dec_digit(d as int)],
{
    proof {
        reveal_strlit("0");
        reveal_strlit("1");
        reveal_strlit("2");
        reveal_strlit("3");
        reveal_strlit("4");
        reveal_strlit("5");
        reveal_strlit("6");
        reveal_strlit("7");
        reveal_strlit("8");
        reveal_strlit("9");
    }
    if d == 0 {
        "0"
    } else if d == 1 {
        "1"
    } else if d == 2 {
        "2"
    } else if d == 3 {
        "3"
    } else if d == 4 {
        "4"
    } else if d == 5 {
        "5"
    } else if d == 6 {
        "6"
    } else if d == 7 {
        "7"
    } else if d == 8 {
        "8"
    } else {
        "9"
    }
}

/// Renders a number in decimal.
pub fn u64_to_string(n: u64) -> (r: String)
    ensures
        r@ == dec_str(n as int),
    decreases n,
{
    if n < 10 {
        String::from_str(digit_str(n))
    } else {
        let mut s = u64_to_string(n / 10);
        s.append(digit_str(n % 10));
        s
    }
}

/// The URL of one edge command:
/// `{scheme}://{host}:{port}/{command}/{args}[/{request_code}]`, with
/// `https` exactly when the server's secure flag is set.
pub open spec fn edge_url(
    https: bool,
    host: Seq<char>,
    port: u16,
    command: Seq<char>,
    args: Seq<char>,
    code: Option<u64>,
) -> Seq<char> {
    (if https {
        "https"@
    } else {
        "http"@
    }) + "://"@ + host + ":"@ + dec_str(port as int) + "/"@ + command + "/"@ + args + (
    match code {
        Option::Some(c) => "/"@ + dec_str(c as int),
        Option::None => Seq::empty(),
    })
}

/// Builds the URL of one edge command against a chosen server,
/// appending the manifest request code when one is supplied.
pub fn remote_cmd_url(
    server: &ServerDescriptor,
    command: &str,
    args: &str,
    code: Option<u64>,
) -> (r: String)
    ensures
        r@ == edge_url(server.https, server.host@, server.port, command@, args@, code),
{
    let mut s = if server.https {
        String::from_str("https")
    } else {
        String::from_str("http")
    };
    s.append("://");
    s.append(server.host.as_str());
    s.append(":");
    let port = u64_to_string(server.port as u64);
    s.append(port.as_str());
    s.append("/");
    s.append(command);
    s.append("/");
    s.append(args);
    match code {
        Some(c) => {
            s.append("/");
            let cs = u64_to_string(c);
            s.append(cs.as_str());
        },
        None => (),
    }
    s
}

/// The argument path of a manifest fetch:
/// `{depot_id}/manifest/{manifest_id}/{MANIFEST_VERSION}`.
pub open spec fn manifest_args_spec(depot_id: u32, manifest_id: u64) -> Seq<char> {
    dec_str(depot_id as int) + "/manifest/"@ + dec_str(manifest_id as int) + "/"@ + dec_str(
        MANIFEST_VERSION as int,
    )
}

/// Builds the argument path of a manifest fetch.
pub fn manifest_args(depot_id: u32, manifest_id: u64) -> (r: String)
    ensures
        r@ == manifest_args_spec(depot_id, manifest_id),
{
    let mut s = u64_to_string(depot_id as u64);
    s.append("/manifest/");
    let m = u64_to_string(manifest_id);
    s.append(m.as_str());
    s.append("/");
    let v = u64_to_string(MANIFEST_VERSION);
    s.append(v.as_str());
    s
}

/// The argument path of a chunk fetch: `{depot_id}/chunk/{chunk_id}`.
pub open spec fn chunk_args_spec(depot_id: u32, chunk_id: Seq<char>) -> Seq<char> {
    dec_str(depot_id as int) + "/chunk/"@ + chunk_id
}

/// Builds the argument path of a chunk fetch.
pub fn chunk_args(depot_id: u32, chunk_id: &str) -> (r: String)
    ensures
        r@ == chunk_args_spec(depot_id, chunk_id@),
{
    let mut s = u64_to_string(depot_id as u64);
    s.append("/chunk/");
    s.append(chunk_id);
    s
}

/// Interprets the control plane's depot-key response: a present key
/// must be exactly 32 bytes, an absent key is not an error.
pub fn depot_key_from_response(resp: Option<Vec<u8>>) -> (r: Result<Option<[u8; 32]>, Error>)
    ensures
        match resp {
            Option::Some(bytes) => {
                if bytes@.len() == 32 {
                    &&& r is Ok
                    &&& r->Ok_0 is Some
                    &&& r->Ok_0->0@ == bytes@
                } else {
                    r matches Err(Error::Unexpected(m)) && m@ == "depot key has unexpected size"@
                }
            },
            Option::None => r == Ok::<Option<[u8; 32]>, Error>(None),
        },
{
    match resp {
        Some(bytes) => {
            if bytes.len() == 32 {
                let mut key = [0u8; 32];
                let mut i: usize = 0;
                while i < 32
                    invariant
                        bytes@.len() == 32,
                        0 <= i <= 32,
                        forall|j: int| 0 <= j < i ==> key@[j] == bytes@[j],
                    decreases 32 - i,
                {
                    key[i] = bytes[i];
                    i = i + 1;
                }
                proof {
                    assert(key@ =~= bytes@);
                }
                Ok(Some(key))
            } else {
                Err(Error::Unexpected("depot key has unexpected size".to_owned()))
            }
        },
        None => Ok(None),
    }
}

/// Interprets the control plane's manifest-request-code response: the
/// code is required.
pub fn manifest_request_code_from_response(code: Option<u64>) -> (r: Result<u64, Error>)
    ensures
        code matches Some(c) ==> r == Ok::<u64, Error>(c),
        code is None ==> (r matches Err(Error::Unexpected(m)) && m@
            == "failed to get manifest request code"@),
{
    match code {
        Some(c) => Ok(c),
        None => Err(Error::Unexpected("failed to get manifest request code".to_owned())),
    }
}

/// Interprets an edge response status: success is any status in the
/// 2xx class; anything else penalizes the chosen server and surfaces
/// the status.
pub fn handle_edge_status(status: u16) -> (r: Result<(), Error>)
    ensures
        r is Ok <==> 200 <= status < 300,
        !(200 <= status < 300) ==> r == Err::<(), Error>(Error::HttpStatus(status)),
{
    if 200 <= status && status < 300 {
        Ok(())
    } else {
        Err(Error::HttpStatus(status))
    }
}

} // verus!
