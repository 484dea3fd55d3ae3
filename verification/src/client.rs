//! What the transcription client decides: what the upload holds, and what
//! becomes of the service's answer.
//!
//! The client comes in two kinds, one that blocks its thread and one that does
//! not. Neither sends anything from here. The caller performs the upload that
//! [`blocking_upload`] or [`non_blocking_upload`] describes, hands the status
//! of the answer to [`after_status`], and does what the step that comes back
//! says. A call is made once: nothing is tried again.

use vstd::prelude::*;

verus! {

/// Where the audio is sent.
pub const API_URL: &'static str = "https://albert.api.etalab.gouv.fr/v1/audio/transcriptions";

/// Where the encrypted key can be fetched.
pub const URL_API_KEY: &'static str = "https://llm.iut-rodez.fr/albert/albertine.key";

/// Where the encrypted key is kept by default.
pub const KEY_FILEPATH: &'static str = "./albertine.key";

/// The model that the blocking client asks for.
pub const BLOCKING_MODEL: &'static str = "openai/whisper-large-v3";

/// The model that the non-blocking client asks for.
pub const NON_BLOCKING_MODEL: &'static str = "openweight-audio";

/// How long the service is given to answer, in seconds.
pub const TIMEOUT_SECONDS: u64 = 600;

/// The two kinds of client.
#[derive(Clone, Copy, Debug, PartialEq, Eq, Structural)]
pub enum Variant {
    Blocking,
    NonBlocking,
}

/// A name with its value: a header of the request, or a text field of its
/// form.
#[derive(Debug)]
pub struct Pair {
    pub name: String,
    pub value: String,
}

/// An upload, ready to be sent.
#[derive(Debug)]
pub struct UploadRequest {
    /// Where the request is posted.
    pub url: String,
    /// After how many seconds the request is given up.
    pub timeout_seconds: u64,
    /// Whether the client goes through the system's proxy. Without it the
    /// client goes through no proxy at all.
    pub use_system_proxy: bool,
    /// The headers, in the order in which they are set.
    pub headers: Vec<Pair>,
    /// The text fields of the form, in the order in which they are added.
    pub text_fields: Vec<Pair>,
    /// The name of the field that carries the audio. It is added last.
    pub file_field: String,
}

/// What an [`UploadRequest`] stands for.
pub struct UploadPlan {
    pub url: Seq<char>,
    pub timeout_seconds: u64,
    pub use_system_proxy: bool,
    pub headers: Seq<(Seq<char>, Seq<char>)>,
    pub text_fields: Seq<(Seq<char>, Seq<char>)>,
    pub file_field: Seq<char>,
}

impl View for Pair {
    type V = (Seq<char>, Seq<char>);

    open spec fn view(&self) -> (Seq<char>, Seq<char>) {
        (self.name@, self.value@)
    }
}

/// What a list of pairs holds.
pub open spec fn pairs_of(pairs: Seq<Pair>) -> Seq<(Seq<char>, Seq<char>)> {
    pairs.map_values(|pair: Pair| pair@)
}

impl View for UploadRequest {
    type V = UploadPlan;

    open spec fn view(&self) -> UploadPlan {
        UploadPlan {
            url: self.url@,
            timeout_seconds: self.timeout_seconds,
            use_system_proxy: self.use_system_proxy,
            headers: pairs_of(self.headers@),
            text_fields: pairs_of(self.text_fields@),
            file_field: self.file_field@,
        }
    }
}

/// The value of the header that carries the key.
pub open spec fn bearer(key: Seq<char>) -> Seq<char> {
    "Bearer "@ + key
}

/// The upload of the blocking client: the model and the audio, with the key
/// in the one header.
pub open spec fn blocking_plan(key: Seq<char>, use_system_proxy: bool) -> UploadPlan {
    UploadPlan {
        url: API_URL@,
        timeout_seconds: TIMEOUT_SECONDS,
        use_system_proxy,
        headers: seq![("Authorization"@, bearer(key))],
        text_fields: seq![("model"@, BLOCKING_MODEL@)],
        file_field: "file"@,
    }
}

/// The upload of the non-blocking client: the model, the language and the
/// audio, with the key in the first header and the wish for JSON in the
/// second.
pub open spec fn non_blocking_plan(
    key: Seq<char>,
    use_system_proxy: bool,
    language: Seq<char>,
) -> UploadPlan {
    UploadPlan {
        url: API_URL@,
        timeout_seconds: TIMEOUT_SECONDS,
        use_system_proxy,
        headers: seq![("Authorization"@, bearer(key)), ("Accept"@, "application/json"@)],
        text_fields: seq![("model"@, NON_BLOCKING_MODEL@), ("language"@, language)],
        file_field: "file"@,
    }
}

/// Whether `status` says that the service took the request: the statuses from
/// 200 to 299 do.
pub open spec fn is_success(status: u16) -> bool {
    200 <= status < 300
}

/// What the client does once the status of the answer is known.
#[derive(Clone, Copy, Debug, PartialEq, Eq, Structural)]
pub enum Step {
    /// Read the body of the answer and write it to the output file as it is,
    /// over what the file held. With `create_parent_dir`, first make the
    /// directory of that file where it is missing.
    Persist { create_parent_dir: bool },
    /// Say that the transcription failed, and show the answer. Nothing is
    /// written, and the call ends as one that went well does.
    Report,
}

/// The step that follows an answer with `status`.
pub open spec fn step_after(variant: Variant, status: u16) -> Step {
    if is_success(status) {
        Step::Persist { create_parent_dir: variant == Variant::NonBlocking }
    } else {
        Step::Report
    }
}

/// The value of the header that carries `key`.
pub fn bearer_header(key: &str) -> (value: String)
    ensures
        value@ == bearer(key@),
{
    let mut value = String::from_str("Bearer ");
    value.append(key);
    value
}

/// A pair of `name` and `value`.
fn pair(name: &str, value: String) -> (made: Pair)
    ensures
        made@ == (name@, value@),
{
    Pair { name: String::from_str(name), value }
}

/// The upload that the blocking client sends with `key`.
pub fn blocking_upload(key: &str, use_system_proxy: bool) -> (request: UploadRequest)
    ensures
        request@ == blocking_plan(key@, use_system_proxy),
{
    let mut headers: Vec<Pair> = Vec::new();
    headers.push(pair("Authorization", bearer_header(key)));
    let mut text_fields: Vec<Pair> = Vec::new();
    text_fields.push(pair("model", String::from_str(BLOCKING_MODEL)));
    let request = UploadRequest {
        url: String::from_str(API_URL),
        timeout_seconds: TIMEOUT_SECONDS,
        use_system_proxy,
        headers,
        text_fields,
        file_field: String::from_str("file"),
    };
    assert(request@.headers =~= blocking_plan(key@, use_system_proxy).headers);
    assert(request@.text_fields =~= blocking_plan(key@, use_system_proxy).text_fields);
    request
}

/// The upload that the non-blocking client sends with `key`, for audio in
/// `language`.
pub fn non_blocking_upload(key: &str, use_system_proxy: bool, language: &str) -> (request:
    UploadRequest)
    ensures
        request@ == non_blocking_plan(key@, use_system_proxy, language@),
{
    let mut headers: Vec<Pair> = Vec::new();
    headers.push(pair("Authorization", bearer_header(key)));
    headers.push(pair("Accept", String::from_str("application/json")));
    let mut text_fields: Vec<Pair> = Vec::new();
    text_fields.push(pair("model", String::from_str(NON_BLOCKING_MODEL)));
    text_fields.push(pair("language", String::from_str(language)));
    let request = UploadRequest {
        url: String::from_str(API_URL),
        timeout_seconds: TIMEOUT_SECONDS,
        use_system_proxy,
        headers,
        text_fields,
        file_field: String::from_str("file"),
    };
    assert(request@.headers =~= non_blocking_plan(key@, use_system_proxy, language@).headers);
    assert(request@.text_fields =~= non_blocking_plan(
        key@,
        use_system_proxy,
        language@,
    ).text_fields);
    request
}

/// What the client does after an answer with `status`.
///
/// A status from 200 to 299 has the body written to the output file; only the
/// non-blocking client makes the file's directory first. Any other status is
/// reported and nothing is written: the call still ends well.
pub fn after_status(variant: Variant, status: u16) -> (step: Step)
    ensures
        step == step_after(variant, status),
        !is_success(status) ==> step == Step::Report,
{
    if 200 <= status && status < 300 {
        match variant {
            Variant::Blocking => Step::Persist { create_parent_dir: false },
            Variant::NonBlocking => Step::Persist { create_parent_dir: true },
        }
    } else {
        Step::Report
    }
}

} // verus!
