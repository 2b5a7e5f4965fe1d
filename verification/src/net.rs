//! What the library needs to know of a failed HTTP request, and the
//! user-facing messages built from it.
use vstd::prelude::*;

use crate::text::{
    chars_of, contains, contains_str, decimal, lower_chars, lowercase, push_all, push_str,
    starts_with, starts_with_str, string_of, u64_to_chars,
};

verus! {

/// Why an HTTP request failed.
pub enum HttpFailure {
    /// The server answered with a non-2xx status code.
    Status(u16),
    /// No usable answer: `kind` is the transport error kind as displayed
    /// (e.g. `dns error: …`, `io error: … timed out`), `message` the whole
    /// error as displayed.
    Transport { kind: String, message: String },
}

/// Connection timeout of source requests, in seconds.
pub const TIMEOUT_CONNECT_SECS: u64 = 10;

/// Read timeout of source requests, in seconds.
pub const TIMEOUT_READ_SECS: u64 = 15;

/// Message for a failed source request, prefixed by its `context`: the
/// status code, or a DNS / timeout / address / other network explanation
/// chosen from the lower-cased transport kind.
pub open spec fn http_error_text(context: Seq<char>, e: HttpFailure) -> Seq<char> {
    match e {
        HttpFailure::Status(code) => context + ": 服务器返回 HTTP "@ + decimal(code as nat),
        HttpFailure::Transport { kind, message } => {
            let k = lowercase(kind@);
            if starts_with(k, "dns"@) {
                context + ": 域名无法解析，请检查地址拼写与网络连接"@
            } else if contains(k, "timed out"@) || contains(k, "timeout"@) {
                context + ": 请求超时（"@ + decimal(TIMEOUT_CONNECT_SECS as nat) + "s 连接 / "@
                    + decimal(TIMEOUT_READ_SECS as nat) + "s 读取），服务器无响应或网络不通"@
            } else if starts_with(k, "url"@) {
                context + ": 地址格式无效"@
            } else {
                context + ": 网络错误（"@ + k + "）"@
            }
        },
    }
}

/// Builds the message for a failed source request (see [`http_error_text`]).
pub fn http_err(context: &str, e: &HttpFailure) -> (r: String)
    ensures
        r@ == http_error_text(context@, *e),
{
    let mut out = chars_of(context);
    match e {
        HttpFailure::Status(code) => {
            push_str(&mut out, ": 服务器返回 HTTP ");
            push_all(&mut out, &u64_to_chars(*code as u64));
        },
        HttpFailure::Transport { kind, message: _ } => {
            let kv = chars_of(kind.as_str());
            let k = lower_chars(&kv);
            if starts_with_str(&k, "dns") {
                push_str(&mut out, ": 域名无法解析，请检查地址拼写与网络连接");
            } else if contains_str(&k, "timed out") || contains_str(&k, "timeout") {
                push_str(&mut out, ": 请求超时（");
                push_all(&mut out, &u64_to_chars(TIMEOUT_CONNECT_SECS));
                push_str(&mut out, "s 连接 / ");
                push_all(&mut out, &u64_to_chars(TIMEOUT_READ_SECS));
                push_str(&mut out, "s 读取），服务器无响应或网络不通");
            } else if starts_with_str(&k, "url") {
                push_str(&mut out, ": 地址格式无效");
            } else {
                push_str(&mut out, ": 网络错误（");
                push_all(&mut out, &k);
                push_str(&mut out, "）");
            }
        },
    }
    string_of(&out)
}

} // verus!
