//! Installing the WinGet bundle through the system package manager: the file
//! URIs handed to it, and the decisions taken while its deployment runs.
use vstd::prelude::*;
use crate::text::{decimal, push_char, string_of};

verus! {

/// How long to wait between two looks at a running deployment.
pub const DEPLOYMENT_POLL_MS: u64 = 250;

/// How long a deployment may run before it is cancelled.
pub const DEPLOYMENT_TIMEOUT_SECS: u64 = 600;

/// `\` becomes `/`.
pub open spec fn slash_byte(b: u8) -> u8 {
    if b == 0x5c { 0x2f } else { b }
}

pub open spec fn slashed(bs: Seq<u8>) -> Seq<u8> {
    bs.map_values(|b: u8| slash_byte(b))
}

pub open spec fn slashed_chars(s: Seq<char>) -> Seq<char> {
    s.map_values(|c: char| if c == '\\' { '/' } else { c })
}

/// A UNC path (`//host/share/...`, after `\` became `/`).
pub open spec fn is_unc(b: Seq<u8>) -> bool {
    b.len() >= 2 && b[0] == 0x2f && b[1] == 0x2f
}

/// A drive path (`C:/...`, after `\` became `/`).
pub open spec fn is_drive_absolute(b: Seq<u8>) -> bool {
    b.len() >= 3 && b[1] == 0x3a && b[2] == 0x2f
}

/// A byte that stands for itself in a file URI: ASCII letters and digits and `-._~/:`.
pub open spec fn uri_safe(b: u8) -> bool {
    ||| (0x30 <= b <= 0x39)
    ||| (0x41 <= b <= 0x5a)
    ||| (0x61 <= b <= 0x7a)
    ||| b == 0x2d || b == 0x2e || b == 0x5f || b == 0x7e || b == 0x2f || b == 0x3a
}

/// An upper-case hexadecimal digit.
pub open spec fn hex_digit(d: u8) -> char {
    if d < 10 { ((0x30 + d) as u8) as char } else { ((0x41 + d - 10) as u8) as char }
}

/// A byte as it stands in the URI: itself, or `%` and two upper-case hex digits.
pub open spec fn escape_byte(b: u8) -> Seq<char> {
    if uri_safe(b) {
        seq![b as char]
    } else {
        seq!['%', hex_digit(b / 16), hex_digit(b % 16)]
    }
}

pub open spec fn escape_bytes(bs: Seq<u8>) -> Seq<char>
    decreases bs.len(),
{
    if bs.len() == 0 {
        Seq::empty()
    } else {
        escape_bytes(bs.drop_last()) + escape_byte(bs.last())
    }
}

/// The `file:` URI of an absolute Windows path, or `None` for any other path.
pub open spec fn file_uri(path: Seq<char>) -> Option<Seq<char>> {
    let b = slashed(vstd::utf8::encode_utf8(path));
    if is_unc(b) {
        Some("file:"@ + escape_bytes(b))
    } else if is_drive_absolute(b) {
        Some("file:///"@ + escape_bytes(b))
    } else {
        None
    }
}

pub open spec fn not_absolute_message(path: Seq<char>) -> Seq<char> {
    "MSIX 路径不是 Windows 绝对路径："@ + slashed_chars(path)
}

fn hex_digit_exec(d: u8) -> (c: char)
    requires
        d < 16,
    ensures
        c == hex_digit(d),
{
    if d < 10 {
        (0x30 + d) as char
    } else {
        (0x41 + d - 10) as char
    }
}

fn uri_safe_exec(b: u8) -> (r: bool)
    ensures
        r == uri_safe(b),
{
    (0x30 <= b && b <= 0x39) || (0x41 <= b && b <= 0x5a) || (0x61 <= b && b <= 0x7a)
        || b == 0x2d || b == 0x2e || b == 0x5f || b == 0x7e || b == 0x2f || b == 0x3a
}

/// The text with each `\` turned into `/`.
fn slashed_text(path: &str) -> (r: String)
    ensures
        r@ == slashed_chars(path@),
{
    let mut out = String::new();
    let mut i: usize = 0;
    let cs = crate::text::chars_of(path);
    while i < cs.len()
        invariant
            i <= cs.len(),
            cs@ == path@,
            out@ == slashed_chars(path@).take(i as int),
        decreases cs.len() - i,
    {
        let c = cs[i];
        push_char(&mut out, if c == '\\' { '/' } else { c });
        assert(slashed_chars(path@).take(i + 1) == slashed_chars(path@).take(i as int).push(
            slashed_chars(path@)[i as int],
        ));
        i = i + 1;
    }
    assert(slashed_chars(path@).take(cs.len() as int) == slashed_chars(path@));
    out
}

/// The `file:` URI under which the package manager reads a bundle: `\`
/// becomes `/`, a UNC path `//host/...` gets the prefix `file:` and a drive
/// path `C:/...` the prefix `file:///`, and each UTF-8 byte other than ASCII
/// letters, digits and `-._~/:` is written `%XX`. Any other path is refused.
pub fn file_uri_string(path: &str) -> (r: Result<String, String>)
    ensures
        match r {
            Ok(uri) => file_uri(path@) == Some(uri@),
            Err(message) => file_uri(path@) is None && message@ == not_absolute_message(path@),
        },
{
    let raw = path.as_bytes();
    let mut bytes: Vec<u8> = Vec::new();
    let mut i: usize = 0;
    while i < raw.len()
        invariant
            i <= raw.len(),
            raw@ == vstd::utf8::encode_utf8(path@),
            bytes@ == slashed(raw@).take(i as int),
        decreases raw.len() - i,
    {
        let b = raw[i];
        bytes.push(if b == 0x5c { 0x2f } else { b });
        assert(slashed(raw@).take(i + 1) == slashed(raw@).take(i as int).push(slashed(raw@)[i as int]));
        i = i + 1;
    }
    assert(slashed(raw@).take(raw.len() as int) == slashed(raw@));
    let unc = bytes.len() >= 2 && bytes[0] == 0x2f && bytes[1] == 0x2f;
    let drive = bytes.len() >= 3 && bytes[1] == 0x3a && bytes[2] == 0x2f;
    if !unc && !drive {
        let mut message = "MSIX 路径不是 Windows 绝对路径：".to_owned();
        let shown = slashed_text(path);
        message.append(shown.as_str());
        return Err(message);
    }
    let mut uri: Vec<char> = Vec::new();
    if unc {
        uri.push('f');
        uri.push('i');
        uri.push('l');
        uri.push('e');
        uri.push(':');
    } else {
        uri.push('f');
        uri.push('i');
        uri.push('l');
        uri.push('e');
        uri.push(':');
        uri.push('/');
        uri.push('/');
        uri.push('/');
    }
    let ghost prefix = uri@;
    proof {
        reveal_strlit("file:");
        reveal_strlit("file:///");
        assert(bytes@.take(0) == Seq::<u8>::empty());
    }
    let mut k: usize = 0;
    while k < bytes.len()
        invariant
            k <= bytes.len(),
            uri@ == prefix + escape_bytes(bytes@.take(k as int)),
        decreases bytes.len() - k,
    {
        let b = bytes[k];
        proof {
            assert(bytes@.take(k + 1).drop_last() == bytes@.take(k as int));
        }
        if uri_safe_exec(b) {
            uri.push(b as char);
        } else {
            uri.push('%');
            uri.push(hex_digit_exec(b / 16));
            uri.push(hex_digit_exec(b % 16));
        }
        k = k + 1;
    }
    proof {
        assert(bytes@.take(bytes.len() as int) == bytes@);
    }
    Ok(string_of(uri.as_slice()))
}

/// What the package manager is asked to install: the bundle and its
/// dependencies, each by its file URI.
#[derive(Debug, Clone)]
pub struct DeploymentRequest {
    pub bundle_uri: String,
    pub dependency_uris: Vec<String>,
}

/// The file URIs for installing `bundle` with `dependencies`, in order, or the
/// error for the first of them (the bundle first) that is no absolute Windows path.
pub fn install(bundle: &str, dependencies: &[String]) -> (r: Result<DeploymentRequest, String>)
    ensures
        match r {
            Ok(request) => {
                &&& file_uri(bundle@) == Some(request.bundle_uri@)
                &&& request.dependency_uris@.len() == dependencies@.len()
                &&& forall|i: int| 0 <= i < dependencies@.len()
                    ==> file_uri(dependencies@[i]@) == Some(#[trigger] request.dependency_uris@[i]@)
            },
            Err(message) => {
                ||| file_uri(bundle@) is None && message@ == not_absolute_message(bundle@)
                ||| file_uri(bundle@) is Some && exists|i: int| 0 <= i < dependencies@.len()
                    && file_uri(#[trigger] dependencies@[i]@) is None
                    && message@ == not_absolute_message(dependencies@[i]@)
                    && forall|j: int| 0 <= j < i ==> file_uri(#[trigger] dependencies@[j]@) is Some
            },
        },
{
    let bundle_uri = match file_uri_string(bundle) {
        Ok(uri) => uri,
        Err(message) => return Err(message),
    };
    let mut dependency_uris: Vec<String> = Vec::new();
    let mut i: usize = 0;
    while i < dependencies.len()
        invariant
            i <= dependencies.len(),
            dependency_uris@.len() == i,
            file_uri(bundle@) == Some(bundle_uri@),
            forall|j: int| 0 <= j < i
                ==> file_uri(dependencies@[j]@) == Some(#[trigger] dependency_uris@[j]@),
        decreases dependencies.len() - i,
    {
        match file_uri_string(dependencies[i].as_str()) {
            Ok(uri) => dependency_uris.push(uri),
            Err(message) => {
                proof {
                    assert forall|j: int| 0 <= j < i implies file_uri(#[trigger] dependencies@[j]@) is Some by {
                        assert(file_uri(dependencies@[j]@) == Some(dependency_uris@[j]@));
                    }
                    assert(file_uri(dependencies@[i as int]@) is None);
                }
                return Err(message);
            },
        }
        i = i + 1;
    }
    Ok(DeploymentRequest { bundle_uri, dependency_uris })
}

/// What to do next while a deployment runs.
#[derive(Debug, Clone, PartialEq, Eq)]
pub enum DeploymentStep {
    /// Still running: look again after `DEPLOYMENT_POLL_MS`.
    Wait,
    /// Finished: read the deployment result.
    CollectResult,
    /// Failed: report the operation's error code.
    ReportErrorCode,
    /// Ask the system to cancel the deployment, then fail with this message.
    Abort(String),
    /// Fail with this message.
    Fail(String),
}

/// The step the install loop takes on seeing the operation in `status`
/// (0 running, 1 completed, 2 cancelled, 3 failed), after `elapsed_ms`, with
/// cancellation asked for or not. Cancellation is looked at first, then the
/// time limit, then the status.
pub fn deployment_step(status: i32, cancelled: bool, elapsed_ms: u64) -> (r: DeploymentStep)
    ensures
        cancelled ==> (r matches DeploymentStep::Abort(m) && m@ == "WinGet 安装已取消"@),
        !cancelled && elapsed_ms >= DEPLOYMENT_TIMEOUT_SECS * 1000
            ==> (r matches DeploymentStep::Abort(m) && m@ == "WinGet 安装超过 10 分钟，已请求系统取消部署"@),
        !cancelled && elapsed_ms < DEPLOYMENT_TIMEOUT_SECS * 1000 ==> {
            &&& status == 0 ==> r is Wait
            &&& status == 1 ==> r is CollectResult
            &&& status == 2 ==> (r matches DeploymentStep::Fail(m) && m@ == "WinGet 安装已被系统取消"@)
            &&& status == 3 ==> r is ReportErrorCode
            &&& (status < 0 || status > 3) ==> (r matches DeploymentStep::Fail(m)
                && m@ == "MSIX 部署返回未知状态："@ + signed_decimal(status as int))
        },
{
    if cancelled {
        return DeploymentStep::Abort("WinGet 安装已取消".to_owned());
    }
    if elapsed_ms >= DEPLOYMENT_TIMEOUT_SECS * 1000 {
        return DeploymentStep::Abort("WinGet 安装超过 10 分钟，已请求系统取消部署".to_owned());
    }
    match status {
        0 => DeploymentStep::Wait,
        1 => DeploymentStep::CollectResult,
        2 => DeploymentStep::Fail("WinGet 安装已被系统取消".to_owned()),
        3 => DeploymentStep::ReportErrorCode,
        _ => {
            let mut message = "MSIX 部署返回未知状态：".to_owned();
            let digits = signed_decimal_string(status);
            message.append(digits.as_str());
            DeploymentStep::Fail(message)
        },
    }
}

/// The decimal form of an integer, with `-` before a negative one.
pub open spec fn signed_decimal(n: int) -> Seq<char> {
    if n < 0 { seq!['-'] + decimal((-n) as nat) } else { decimal(n as nat) }
}

fn signed_decimal_string(n: i32) -> (r: String)
    ensures
        r@ == signed_decimal(n as int),
{
    if n < 0 {
        let magnitude: u64 = (0i64 - (n as i64)) as u64;
        let digits = crate::text::decimal_string(magnitude);
        let mut out = "-".to_owned();
        out.append(digits.as_str());
        proof {
            reveal_strlit("-");
        }
        out
    } else {
        crate::text::decimal_string(n as u64)
    }
}

} // verus!
