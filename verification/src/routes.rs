//! The static file server's decisions: how a request path is routed,
//! which content type an extension maps to, when a file is worth
//! sending, and the entity tag of a file.

use crate::hashing::{base32_nopad, base32_nopad_of, lower_of, lowercase, sha256, sha256_of};
use crate::text::{dec_of, str_eq, str_has_prefix, u64_dec};
use vstd::prelude::*;
use vstd::string::StrSliceExecFns;

verus! {

/// Where a request goes: the database websocket, a websocket or rest
/// continuation under its identifier, or the main interface.
#[derive(Debug)]
pub enum Route {
    WsDb,
    WsRpc(String),
    RestRpc(String),
    Ui,
}

/// Classifies a request path.
pub fn classify_request(path: &str) -> (r: Route)
    ensures
        path@ == "/ws/db"@ ==> r is WsDb,
        path@ != "/ws/db"@ && crate::text::spec_has_prefix(path@, "/ws/rpc/"@) ==> (r matches
            Route::WsRpc(rest) && rest@ == path@.skip(8)),
        path@ != "/ws/db"@ && !crate::text::spec_has_prefix(path@, "/ws/rpc/"@)
            && crate::text::spec_has_prefix(path@, "/rest/rpc/"@) ==> (r matches Route::RestRpc(
            rest,
        ) && rest@ == path@.skip(10)),
        path@ != "/ws/db"@ && !crate::text::spec_has_prefix(path@, "/ws/rpc/"@)
            && !crate::text::spec_has_prefix(path@, "/rest/rpc/"@) ==> r is Ui,
{
    if str_eq(path, "/ws/db") {
        Route::WsDb
    } else if str_has_prefix(path, "/ws/rpc/") {
        proof {
            reveal_strlit("/ws/rpc/");
        }
        let rest = path.substring_char(8, path.unicode_len());
        proof {
            assert(rest@ =~= path@.skip(8));
        }
        Route::WsRpc(rest.to_owned())
    } else if str_has_prefix(path, "/rest/rpc/") {
        proof {
            reveal_strlit("/rest/rpc/");
        }
        let rest = path.substring_char(10, path.unicode_len());
        proof {
            assert(rest@ =~= path@.skip(10));
        }
        Route::RestRpc(rest.to_owned())
    } else {
        Route::Ui
    }
}

/// A path split at its first `/`: what stands before and after, or
/// nothing when the path carries no `/`.
pub open spec fn spec_split_once(s: Seq<char>) -> Option<(Seq<char>, Seq<char>)>
    decreases s.len(),
{
    if s.len() == 0 {
        None
    } else if s[0] == '/' {
        Some((Seq::empty(), s.drop_first()))
    } else {
        match spec_split_once(s.drop_first()) {
            None => None,
            Some((a, b)) => Some((seq![s[0]] + a, b)),
        }
    }
}

/// Splitting at the first `/` takes what stands before it and what
/// stands after.
proof fn lemma_split_once_at(s: Seq<char>, k: int)
    requires
        0 <= k < s.len(),
        s[k] == '/',
        forall|j: int| 0 <= j < k ==> s[j] != '/',
    ensures
        spec_split_once(s) == Some((s.take(k), s.skip(k + 1))),
    decreases k,
{
    if k == 0 {
        assert(s.take(0) =~= Seq::<char>::empty());
        assert(s.skip(1) =~= s.drop_first());
    } else {
        assert(s.drop_first()[k - 1] == s[k]);
        assert(forall|j: int| 0 <= j < k - 1 ==> s.drop_first()[j] == s[j + 1]);
        lemma_split_once_at(s.drop_first(), k - 1);
        assert(seq![s[0]] + s.drop_first().take(k - 1) =~= s.take(k));
        assert(s.drop_first().skip(k) =~= s.skip(k + 1));
    }
}

/// A path without `/` does not split.
proof fn lemma_split_once_none(s: Seq<char>)
    requires
        forall|j: int| 0 <= j < s.len() ==> s[j] != '/',
    ensures
        spec_split_once(s) is None,
    decreases s.len(),
{
    if s.len() > 0 {
        assert(forall|j: int| 0 <= j < s.drop_first().len() ==> s.drop_first()[j] == s[j + 1]);
        lemma_split_once_none(s.drop_first());
    }
}

/// Splits a path at its first `/`.
pub fn split_once_slash(s: &str) -> (r: Option<(String, String)>)
    ensures
        match r {
            None => spec_split_once(s@) is None,
            Some((a, b)) => spec_split_once(s@) == Some((a@, b@)),
        },
{
    let n: usize = s.unicode_len();
    let mut i: usize = 0;
    while i < n
        invariant
            n == s@.len(),
            0 <= i <= n,
            forall|j: int| 0 <= j < i ==> s@[j] != '/',
        decreases n - i,
    {
        if s.get_char(i) == '/' {
            let a = s.substring_char(0, i);
            let b = s.substring_char(i + 1, n);
            proof {
                lemma_split_once_at(s@, i as int);
                assert(a@ =~= s@.take(i as int));
                assert(b@ =~= s@.skip(i as int + 1));
            }
            return Some((a.to_owned(), b.to_owned()));
        }
        i = i + 1;
    }
    proof {
        lemma_split_once_none(s@);
    }
    None
}

/// What the main interface decides for a request.
#[derive(Debug)]
pub enum UiRoute {
    /// Serve the interface's index page.
    Index,
    /// Serve a package's public file, at the given path under the
    /// public directory.
    Public(String),
    /// Serve the host's root certificate.
    LocalCert,
    /// Serve an interface asset, at the given path under the interface
    /// directory.
    Www(String),
    /// Refuse: the request needs a session it does not have.
    Unauthorized,
    /// Nothing stands at this path.
    NotFound,
}

/// The main interface's routing: the index for `/`; with a valid
/// session, public files and the root certificate; interface assets
/// with or without a session; anything that is not a plain read is not
/// found.
pub fn ui_route(is_get: bool, path: &str, authed: bool) -> (r: UiRoute)
    ensures
        path@ == "/"@ ==> r is Index,
        path@ != "/"@ && !is_get ==> r is NotFound,
        path@ != "/"@ && is_get ==> {
            let stripped = if crate::text::spec_has_prefix(path@, "/"@) {
                path@.skip(1)
            } else {
                path@
            };
            match spec_split_once(stripped) {
                None => r matches UiRoute::Www(p) && p@ == stripped,
                Some((head, rest)) => if head == "public"@ {
                    if authed {
                        r matches UiRoute::Public(p) && p@ == rest
                    } else {
                        r is Unauthorized
                    }
                } else if head == "eos"@ && rest == "local.crt"@ {
                    if authed {
                        r is LocalCert
                    } else {
                        r is Unauthorized
                    }
                } else {
                    r matches UiRoute::Www(p) && p@ == head + "/"@ + rest
                },
            }
        },
{
    if str_eq(path, "/") {
        return UiRoute::Index;
    }
    if !is_get {
        return UiRoute::NotFound;
    }
    let stripped: &str = if str_has_prefix(path, "/") {
        proof {
            reveal_strlit("/");
        }
        let rest = path.substring_char(1, path.unicode_len());
        proof {
            assert(rest@ =~= path@.skip(1));
        }
        rest
    } else {
        path
    };
    match split_once_slash(stripped) {
        None => UiRoute::Www(stripped.to_owned()),
        Some((head, rest)) => {
            if str_eq(head.as_str(), "public") {
                if authed {
                    UiRoute::Public(rest)
                } else {
                    UiRoute::Unauthorized
                }
            } else if str_eq(head.as_str(), "eos") && str_eq(rest.as_str(), "local.crt") {
                if authed {
                    UiRoute::LocalCert
                } else {
                    UiRoute::Unauthorized
                }
            } else {
                let mut p = head;
                p.append("/");
                p.append(rest.as_str());
                proof {
                    reveal_strlit("/");
                    assert("/"@ =~= seq!['/']);
                }
                UiRoute::Www(p)
            }
        },
    }
}

/// Whether a file is worth sending: it is a regular file and holds at
/// least one byte.
#[derive(Debug)]
pub struct IsNonEmptyFile(());

impl IsNonEmptyFile {
    /// The witness that a file may be sent.
    pub fn new(is_file: bool, len: u64) -> (r: Option<IsNonEmptyFile>)
        ensures
            (is_file && len > 0) ==> r is Some,
            !(is_file && len > 0) ==> r is None,
    {
        if is_file && len > 0 {
            Some(IsNonEmptyFile(()))
        } else {
            None
        }
    }
}

/// The entity tag of a file: the digest of its path key and its
/// modification time in seconds, base-32 encoded in lower case.
pub open spec fn spec_e_tag(path_key: Seq<char>, modified_secs: u64) -> Seq<char> {
    lower_of(
        base32_nopad_of(
            sha256_of(vstd::utf8::encode_utf8(path_key + dec_of(modified_secs as nat))),
        ),
    )
}

/// Computes a file's entity tag from its rendered path key and its
/// modification time.
pub fn e_tag(path_key: &str, modified_secs: u64) -> (r: String)
    ensures
        r@ == spec_e_tag(path_key@, modified_secs),
{
    let mut keyed = path_key.to_owned();
    let secs = u64_dec(modified_secs);
    keyed.append(secs.as_str());
    let digest = sha256(keyed.as_str().as_bytes());
    let encoded = base32_nopad(digest.as_slice());
    lowercase(encoded.as_str())
}

/// The content type served for a file, by its extension; anything
/// unknown is plain text.
pub fn content_type_for(extension: Option<&str>) -> (r: &'static str)
    ensures
        match extension {
            None => r@ == "text/plain"@,
            Some(ext) => {
                if ext@ == "apng"@ {
                    r@ == "image/apng"@
                } else if ext@ == "avif"@ {
                    r@ == "image/avif"@
                } else if ext@ == "flif"@ {
                    r@ == "image/flif"@
                } else if ext@ == "gif"@ {
                    r@ == "image/gif"@
                } else if ext@ == "jpg"@ || ext@ == "jpeg"@ || ext@ == "jfif"@ || ext@ == "pjpeg"@
                    || ext@ == "pjp"@ {
                    r@ == "image/jpeg"@
                } else if ext@ == "jxl"@ {
                    r@ == "image/jxl"@
                } else if ext@ == "png"@ {
                    r@ == "image/png"@
                } else if ext@ == "svg"@ {
                    r@ == "image/svg+xml"@
                } else if ext@ == "webp"@ {
                    r@ == "image/webp"@
                } else if ext@ == "mng"@ || ext@ == "x-mng"@ {
                    r@ == "image/x-mng"@
                } else if ext@ == "css"@ {
                    r@ == "text/css"@
                } else if ext@ == "csv"@ {
                    r@ == "text/csv"@
                } else if ext@ == "html"@ {
                    r@ == "text/html"@
                } else if ext@ == "php"@ {
                    r@ == "text/php"@
                } else if ext@ == "plain"@ || ext@ == "md"@ || ext@ == "txt"@ {
                    r@ == "text/plain"@
                } else if ext@ == "xml"@ {
                    r@ == "text/xml"@
                } else if ext@ == "js"@ {
                    r@ == "text/javascript"@
                } else if ext@ == "wasm"@ {
                    r@ == "application/wasm"@
                } else {
                    r@ == "text/plain"@
                }
            },
        },
{
    match extension {
        None => "text/plain",
        Some(ext) => {
            if str_eq(ext, "apng") {
                "image/apng"
            } else if str_eq(ext, "avif") {
                "image/avif"
            } else if str_eq(ext, "flif") {
                "image/flif"
            } else if str_eq(ext, "gif") {
                "image/gif"
            } else if str_eq(ext, "jpg") || str_eq(ext, "jpeg") || str_eq(ext, "jfif") || str_eq(
                ext,
                "pjpeg",
            ) || str_eq(ext, "pjp") {
                "image/jpeg"
            } else if str_eq(ext, "jxl") {
                "image/jxl"
            } else if str_eq(ext, "png") {
                "image/png"
            } else if str_eq(ext, "svg") {
                "image/svg+xml"
            } else if str_eq(ext, "webp") {
                "image/webp"
            } else if str_eq(ext, "mng") || str_eq(ext, "x-mng") {
                "image/x-mng"
            } else if str_eq(ext, "css") {
                "text/css"
            } else if str_eq(ext, "csv") {
                "text/csv"
            } else if str_eq(ext, "html") {
                "text/html"
            } else if str_eq(ext, "php") {
                "text/php"
            } else if str_eq(ext, "plain") || str_eq(ext, "md") || str_eq(ext, "txt") {
                "text/plain"
            } else if str_eq(ext, "xml") {
                "text/xml"
            } else if str_eq(ext, "js") {
                "text/javascript"
            } else if str_eq(ext, "wasm") {
                "application/wasm"
            } else {
                "text/plain"
            }
        },
    }
}

} // verus!
