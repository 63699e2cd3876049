//! How the body of a request is put on the wire: inline text, a form
//! encoding, a multipart stream of text parts and stored files, or one
//! stored file.
use vstd::prelude::*;
use vstd::string::{StringExecFns, StringSliceAdditionalSpecFns};
use vstd::utf8::encode_utf8;

use crate::domain::{opt_view, BodyType, FormDataFileField, KeyValuePair};
use crate::ids::{fresh_uuid_value, uuid_string, uuid_text};
use crate::text::{chars_of, trim, trim_bounds};
use crate::url_params::form_encode;

verus! {

/// One piece of a multipart body.
#[derive(Debug, Clone, PartialEq, Eq)]
pub enum BodySegment {
    /// Text, sent as its UTF-8 bytes.
    Text(String),
    /// The contents of the stored blob with this hash.
    Blob { hash: String },
}

/// What is sent as the body of a request.
#[derive(Debug, Clone, PartialEq, Eq)]
pub enum RequestBodyPlan {
    NoBody,
    /// Text sent in one piece, with its content type.
    Inline { content: String, content_type: String },
    /// A multipart form, its parts separated by `boundary`.
    Multipart { boundary: String, segments: Vec<BodySegment> },
    /// The contents of one stored blob.
    BinaryBlob { hash: String },
}

/// Why a body could not be built.
#[derive(Debug, Clone, PartialEq, Eq)]
pub enum BodyPlanError {
    /// An enabled file part of a form has no file chosen.
    FormFileNotSelected { key: String },
    /// A binary body has no file chosen.
    BinaryFileNotSelected { file_name: Option<String> },
}

/// The text shown for a body error.
pub open spec fn body_plan_error_text(e: BodyPlanError) -> Seq<char> {
    match e {
        BodyPlanError::FormFileNotSelected { key } => "form-data file '"@ + key@
            + "' has no selected file"@,
        BodyPlanError::BinaryFileNotSelected { file_name } => "binary body file is not selected"@
            + match file_name {
            Some(n) => " ("@ + n@ + ")"@,
            None => Seq::empty(),
        },
    }
}

impl BodyPlanError {
    /// The text shown for this error.
    pub fn message(&self) -> (r: String)
        ensures
            r@ == body_plan_error_text(*self),
            self matches BodyPlanError::FormFileNotSelected { key } ==> r@ == "form-data file '"@
                + key@ + "' has no selected file"@,
            self matches BodyPlanError::BinaryFileNotSelected { file_name } ==> r@
                == "binary body file is not selected"@ + match file_name {
                Some(n) => " ("@ + n@ + ")"@,
                None => Seq::empty(),
            },
    {
        match self {
            BodyPlanError::FormFileNotSelected { key } => String::from_str("form-data file '").concat(
                key.as_str(),
            ).concat("' has no selected file"),
            BodyPlanError::BinaryFileNotSelected { file_name } => {
                let base = String::from_str("binary body file is not selected");
                match file_name {
                    Some(n) => base.concat(" (").concat(n.as_str()).concat(")"),
                    None => base,
                }
            },
        }
    }
}

pub open spec fn string_pairs_view(pairs: Seq<(String, String)>) -> Seq<(Seq<char>, Seq<char>)> {
    pairs.map_values(|p: (String, String)| (p.0@, p.1@))
}

/// Encodes name/value pairs as `application/x-www-form-urlencoded`
/// (`serde_urlencoded::to_string`, which writes each pair with
/// `form_urlencoded::Serializer::append_pair` on an empty string and has no
/// error for pairs of strings).
#[verifier::external_body]
fn encode_form_pairs(pairs: &Vec<(String, String)>) -> (r: String)
    ensures
        r@ == form_encode(string_pairs_view(pairs@)),
{
    serde_urlencoded::to_string(pairs).unwrap_or_default()
}

/// The enabled entries of a form, as name/value pairs, in order.
pub open spec fn enabled_pairs(entries: Seq<KeyValuePair>) -> Seq<(Seq<char>, Seq<char>)>
    decreases entries.len(),
{
    if entries.len() == 0 {
        Seq::empty()
    } else {
        let rest = enabled_pairs(entries.drop_last());
        if entries.last().enabled {
            rest.push((entries.last().key@, entries.last().value@))
        } else {
            rest
        }
    }
}

pub open spec fn segment_view(s: BodySegment) -> (bool, Seq<char>) {
    match s {
        BodySegment::Text(t) => (false, t@),
        BodySegment::Blob { hash } => (true, hash@),
    }
}

pub open spec fn segments_view(v: Seq<BodySegment>) -> Seq<(bool, Seq<char>)> {
    v.map_values(|s: BodySegment| segment_view(s))
}

pub open spec fn boundary_line(boundary: Seq<char>) -> Seq<char> {
    "--"@ + boundary + "\r\n"@
}

/// The parts of an enabled text field.
pub open spec fn text_part(boundary: Seq<char>, f: KeyValuePair) -> Seq<(bool, Seq<char>)> {
    seq![
        (false, boundary_line(boundary)),
        (false, "Content-Disposition: form-data; name=\""@ + f.key@ + "\"\r\n\r\n"@),
        (false, f.value@),
        (false, "\r\n"@),
    ]
}

pub open spec fn text_parts(boundary: Seq<char>, fields: Seq<KeyValuePair>) -> Seq<(bool, Seq<char>)>
    decreases fields.len(),
{
    if fields.len() == 0 {
        Seq::empty()
    } else {
        let rest = text_parts(boundary, fields.drop_last());
        if fields.last().enabled {
            rest + text_part(boundary, fields.last())
        } else {
            rest
        }
    }
}

/// The file name a file part announces: its own, or `file.bin`.
pub open spec fn announced_file_name(f: FormDataFileField) -> Seq<char> {
    match f.file_name {
        Some(n) => n@,
        None => "file.bin"@,
    }
}

/// The parts of an enabled file field: its headers, then the blob.
pub open spec fn file_part(boundary: Seq<char>, f: FormDataFileField) -> Seq<(bool, Seq<char>)> {
    seq![
        (false, boundary_line(boundary)),
        (false, "Content-Disposition: form-data; name=\""@ + f.key@ + "\"; filename=\""@
            + announced_file_name(f) + "\"\r\n"@),
        (false, "Content-Type: application/octet-stream\r\n\r\n"@),
        (true, f.blob_hash@),
        (false, "\r\n"@),
    ]
}

pub open spec fn file_parts(boundary: Seq<char>, fields: Seq<FormDataFileField>) -> Seq<(bool, Seq<char>)>
    decreases fields.len(),
{
    if fields.len() == 0 {
        Seq::empty()
    } else {
        let rest = file_parts(boundary, fields.drop_last());
        if fields.last().enabled {
            rest + file_part(boundary, fields.last())
        } else {
            rest
        }
    }
}

/// An enabled file field with no file chosen (a blank blob hash).
pub open spec fn file_unselected(f: FormDataFileField) -> bool {
    f.enabled && trim(f.blob_hash@).len() == 0
}

/// The whole multipart stream: the text parts, the file parts, and the
/// closing boundary.
pub open spec fn multipart_spec(
    boundary: Seq<char>,
    text_fields: Seq<KeyValuePair>,
    file_fields: Seq<FormDataFileField>,
) -> Seq<(bool, Seq<char>)> {
    text_parts(boundary, text_fields) + file_parts(boundary, file_fields) + seq![
        (false, "--"@ + boundary + "--\r\n"@),
    ]
}

fn is_blank(s: &String) -> (r: bool)
    ensures
        r == (trim(s@).len() == 0),
{
    let c = chars_of(s.as_str());
    let (a, b) = trim_bounds(c.as_slice(), 0, c.len());
    proof {
        assert(c@.subrange(0, c@.len() as int) =~= c@);
    }
    a == b
}

fn push_text(segments: &mut Vec<BodySegment>, text: String)
    ensures
        segments_view(final(segments)@) == segments_view(old(segments)@).push((false, text@)),
{
    let ghost before = segments@;
    segments.push(BodySegment::Text(text));
    proof {
        assert(segments_view(segments@) =~= segments_view(before).push((false, text@)));
    }
}

/// The multipart stream of a form, or the key of the first enabled file
/// field with no file chosen.
pub fn multipart_segments(
    boundary: &str,
    text_fields: &Vec<KeyValuePair>,
    file_fields: &Vec<FormDataFileField>,
) -> (r: Result<Vec<BodySegment>, String>)
    ensures
        match r {
            Ok(segments) => segments_view(segments@) == multipart_spec(
                boundary@,
                text_fields@,
                file_fields@,
            ) && forall|i: int| 0 <= i < file_fields@.len() ==> !file_unselected(file_fields@[i]),
            Err(key) => exists|i: int|
                0 <= i < file_fields@.len() && file_unselected(#[trigger] file_fields@[i])
                    && key@ == file_fields@[i].key@ && forall|j: int|
                    0 <= j < i ==> !file_unselected(#[trigger] file_fields@[j]),
        },
{
    let mut segments: Vec<BodySegment> = Vec::new();
    let mut i: usize = 0;
    while i < text_fields.len()
        invariant
            i <= text_fields.len(),
            segments_view(segments@) == text_parts(boundary@, text_fields@.take(i as int)),
        decreases text_fields.len() - i,
    {
        proof {
            assert(text_fields@.take(i + 1).drop_last() =~= text_fields@.take(i as int));
        }
        let f = &text_fields[i];
        if f.enabled {
            let ghost before = segments_view(segments@);
            push_text(&mut segments, String::from_str("--").concat(boundary).concat("\r\n"));
            push_text(
                &mut segments,
                String::from_str("Content-Disposition: form-data; name=\"").concat(
                    f.key.as_str(),
                ).concat("\"\r\n\r\n"),
            );
            push_text(&mut segments, f.value.clone());
            push_text(&mut segments, String::from_str("\r\n"));
            proof {
                assert(segments_view(segments@) =~= before + text_part(boundary@, text_fields@[i as int]));
            }
        }
        i = i + 1;
    }
    proof {
        assert(text_fields@.take(text_fields@.len() as int) =~= text_fields@);
    }
    let ghost texts = segments_view(segments@);
    let mut k: usize = 0;
    while k < file_fields.len()
        invariant
            k <= file_fields.len(),
            texts == text_parts(boundary@, text_fields@),
            segments_view(segments@) == texts + file_parts(boundary@, file_fields@.take(k as int)),
            forall|j: int| 0 <= j < k ==> !file_unselected(#[trigger] file_fields@[j]),
        decreases file_fields.len() - k,
    {
        proof {
            assert(file_fields@.take(k + 1).drop_last() =~= file_fields@.take(k as int));
        }
        let f = &file_fields[k];
        if f.enabled {
            if is_blank(&f.blob_hash) {
                proof {
                    assert(file_unselected(file_fields@[k as int]));
                }
                return Err(f.key.clone());
            }
            let ghost before = segments_view(segments@);
            let name = match &f.file_name {
                Some(n) => n.clone(),
                None => String::from_str("file.bin"),
            };
            push_text(&mut segments, String::from_str("--").concat(boundary).concat("\r\n"));
            push_text(
                &mut segments,
                String::from_str("Content-Disposition: form-data; name=\"").concat(
                    f.key.as_str(),
                ).concat("\"; filename=\"").concat(name.as_str()).concat("\"\r\n"),
            );
            push_text(
                &mut segments,
                String::from_str("Content-Type: application/octet-stream\r\n\r\n"),
            );
            let ghost before_blob = segments@;
            segments.push(BodySegment::Blob { hash: f.blob_hash.clone() });
            proof {
                assert(segments_view(segments@) =~= segments_view(before_blob).push(
                    (true, f.blob_hash@),
                ));
            }
            push_text(&mut segments, String::from_str("\r\n"));
            proof {
                assert(segments_view(segments@) =~= before + file_part(boundary@, file_fields@[k as int]));
                assert(before + file_part(boundary@, file_fields@[k as int]) =~= texts + file_parts(
                    boundary@,
                    file_fields@.take(k + 1),
                ));
            }
        } else {
            proof {
                assert(!file_unselected(file_fields@[k as int]));
            }
        }
        k = k + 1;
    }
    proof {
        assert(file_fields@.take(file_fields@.len() as int) =~= file_fields@);
    }
    let ghost before_close = segments_view(segments@);
    push_text(&mut segments, String::from_str("--").concat(boundary).concat("--\r\n"));
    proof {
        assert(segments_view(segments@) =~= multipart_spec(boundary@, text_fields@, file_fields@));
    }
    Ok(segments)
}

/// The enabled entries of a form as name/value pairs.
fn enabled_pair_list(entries: &Vec<KeyValuePair>) -> (r: Vec<(String, String)>)
    ensures
        string_pairs_view(r@) == enabled_pairs(entries@),
{
    let mut out: Vec<(String, String)> = Vec::new();
    let mut i: usize = 0;
    while i < entries.len()
        invariant
            i <= entries.len(),
            string_pairs_view(out@) == enabled_pairs(entries@.take(i as int)),
        decreases entries.len() - i,
    {
        proof {
            assert(entries@.take(i + 1).drop_last() =~= entries@.take(i as int));
        }
        if entries[i].enabled {
            let ghost before = out@;
            let pair = (entries[i].key.clone(), entries[i].value.clone());
            out.push(pair);
            proof {
                assert(string_pairs_view(out@) =~= string_pairs_view(before).push(
                    (pair.0@, pair.1@),
                ));
            }
        }
        i = i + 1;
    }
    proof {
        assert(entries@.take(entries@.len() as int) =~= entries@);
    }
    out
}

/// The plan `r` is what `body` is sent as with `boundary` separating the
/// parts of a form.
pub open spec fn plan_matches(body: BodyType, boundary: Seq<char>, r: Result<RequestBodyPlan, BodyPlanError>) -> bool {
    &&& body is NoBody ==> r == Ok::<RequestBodyPlan, BodyPlanError>(RequestBodyPlan::NoBody)
    &&& body matches BodyType::RawText { content } ==> (r matches Ok(
        RequestBodyPlan::Inline { content: c, content_type: t },
    ) && c@ == content@ && t@ == "text/plain"@)
    &&& body matches BodyType::RawJson { content } ==> (r matches Ok(
        RequestBodyPlan::Inline { content: c, content_type: t },
    ) && c@ == content@ && t@ == "application/json"@)
    &&& body matches BodyType::UrlEncoded { entries } ==> (r matches Ok(
        RequestBodyPlan::Inline { content: c, content_type: t },
    ) && c@ == form_encode(enabled_pairs(entries@)) && t@ == "application/x-www-form-urlencoded"@)
    &&& body matches BodyType::FormData { text_fields, file_fields } ==> {
        ||| (r matches Ok(RequestBodyPlan::Multipart { boundary: b, segments }) && b@ == boundary
            && segments_view(segments@) == multipart_spec(boundary, text_fields@, file_fields@)
            && forall|i: int| 0 <= i < file_fields@.len() ==> !file_unselected(file_fields@[i]))
        ||| (r matches Err(BodyPlanError::FormFileNotSelected { key }) && exists|i: int|
            0 <= i < file_fields@.len() && file_unselected(#[trigger] file_fields@[i])
                && key@ == file_fields@[i].key@ && forall|j: int|
                0 <= j < i ==> !file_unselected(#[trigger] file_fields@[j]))
    }
    &&& body matches BodyType::BinaryFile { file_name, blob_hash } ==> if trim(blob_hash@).len() == 0 {
        r matches Err(BodyPlanError::BinaryFileNotSelected { file_name: n }) && opt_view(n)
            == opt_view(file_name)
    } else {
        r matches Ok(RequestBodyPlan::BinaryBlob { hash }) && hash@ == blob_hash@
    }
}

/// The plan for a body, with `boundary` separating the parts of a form:
/// raw text and JSON go inline with their content type; URL-encoded forms go
/// inline, encoded; multipart forms become their stream of parts; a binary
/// body is its stored file. A form file part or a binary body with no file
/// chosen is refused.
pub fn plan_request_body_with_boundary(body: &BodyType, boundary: &str) -> (r: Result<
    RequestBodyPlan,
    BodyPlanError,
>)
    ensures
        plan_matches(*body, boundary@, r),
{
    match body {
        BodyType::NoBody => Ok(RequestBodyPlan::NoBody),
        BodyType::RawText { content } => Ok(
            RequestBodyPlan::Inline {
                content: content.clone(),
                content_type: String::from_str("text/plain"),
            },
        ),
        BodyType::RawJson { content } => Ok(
            RequestBodyPlan::Inline {
                content: content.clone(),
                content_type: String::from_str("application/json"),
            },
        ),
        BodyType::UrlEncoded { entries } => {
            let pairs = enabled_pair_list(entries);
            Ok(
                RequestBodyPlan::Inline {
                    content: encode_form_pairs(&pairs),
                    content_type: String::from_str("application/x-www-form-urlencoded"),
                },
            )
        },
        BodyType::FormData { text_fields, file_fields } => match multipart_segments(
            boundary,
            text_fields,
            file_fields,
        ) {
            Ok(segments) => Ok(
                RequestBodyPlan::Multipart { boundary: String::from_str(boundary), segments },
            ),
            Err(key) => Err(BodyPlanError::FormFileNotSelected { key }),
        },
        BodyType::BinaryFile { file_name, blob_hash } => {
            if is_blank(blob_hash) {
                Err(
                    BodyPlanError::BinaryFileNotSelected {
                        file_name: match file_name {
                            Some(n) => Some(n.clone()),
                            None => None,
                        },
                    },
                )
            } else {
                Ok(RequestBodyPlan::BinaryBlob { hash: blob_hash.clone() })
            }
        },
    }
}

/// `r` is the plan of `body` for a boundary `torii-` and a fresh uuid.
pub open spec fn planned_body(body: BodyType, r: Result<RequestBodyPlan, BodyPlanError>) -> bool {
    exists|v: u128| #[trigger] plan_matches(body, "torii-"@ + uuid_text(v), r)
}

/// The plan for a body, with a fresh boundary `torii-<uuid>` for a form.
pub fn plan_request_body(body: &BodyType) -> (r: Result<RequestBodyPlan, BodyPlanError>)
    ensures
        planned_body(*body, r),
{
    let v = fresh_uuid_value();
    let boundary = String::from_str("torii-").concat(uuid_string(v).as_str());
    plan_request_body_with_boundary(body, boundary.as_str())
}

impl RequestBodyPlan {
    /// The content type the plan is sent with: none for no body, the
    /// multipart type with its boundary for a form, octets for a file.
    pub fn content_type(&self) -> (r: Option<String>)
        ensures
            self is NoBody ==> r is None,
            self matches RequestBodyPlan::Inline { content_type, .. } ==> (r matches Some(t) && t@
                == content_type@),
            self matches RequestBodyPlan::Multipart { boundary, .. } ==> (r matches Some(t) && t@
                == "multipart/form-data; boundary="@ + boundary@),
            self is BinaryBlob ==> (r matches Some(t) && t@ == "application/octet-stream"@),
    {
        match self {
            RequestBodyPlan::NoBody => None,
            RequestBodyPlan::Inline { content_type, .. } => Some(content_type.clone()),
            RequestBodyPlan::Multipart { boundary, .. } => Some(
                String::from_str("multipart/form-data; boundary=").concat(boundary.as_str()),
            ),
            RequestBodyPlan::BinaryBlob { .. } => Some(String::from_str("application/octet-stream")),
        }
    }
}

/// The bytes the multipart segments `segs` send, with `sizes[i]` the size
/// of the stored file of segment `i` when it is one.
pub open spec fn segments_bytes(segs: Seq<BodySegment>, sizes: Seq<u64>) -> int
    decreases segs.len(),
{
    if segs.len() == 0 {
        0
    } else {
        segments_bytes(segs.drop_last(), sizes) + match segs.last() {
            BodySegment::Text(t) => encode_utf8(t@).len() as int,
            BodySegment::Blob { .. } => sizes[segs.len() - 1] as int,
        }
    }
}

/// The bytes a body plan sends: none without a body, the UTF-8 bytes of
/// inline text, the segments of a form, the stored file of a binary body
/// (`sizes` give the stored files' sizes: one per form segment, or one for
/// a binary body).
pub open spec fn plan_bytes(plan: RequestBodyPlan, sizes: Seq<u64>) -> int {
    match plan {
        RequestBodyPlan::NoBody => 0,
        RequestBodyPlan::Inline { content, .. } => encode_utf8(content@).len() as int,
        RequestBodyPlan::Multipart { segments, .. } => segments_bytes(segments@, sizes),
        RequestBodyPlan::BinaryBlob { .. } => sizes[0] as int,
    }
}

/// The sizes given for a plan's stored files: one per form segment, one for
/// a binary body.
pub open spec fn sizes_fit(plan: RequestBodyPlan, sizes: Seq<u64>) -> bool {
    match plan {
        RequestBodyPlan::Multipart { segments, .. } => sizes.len() == segments@.len(),
        RequestBodyPlan::BinaryBlob { .. } => sizes.len() == 1,
        _ => true,
    }
}

proof fn lemma_segments_bytes_grow(segs: Seq<BodySegment>, sizes: Seq<u64>, n: int)
    requires
        0 <= n <= segs.len(),
    ensures
        0 <= segments_bytes(segs.take(n), sizes) <= segments_bytes(segs, sizes),
    decreases segs.len() - n,
{
    if n < segs.len() {
        lemma_segments_bytes_grow(segs, sizes, n + 1);
        assert(segs.take(n + 1).drop_last() =~= segs.take(n));
    } else {
        assert(segs.take(n) =~= segs);
    }
    if n > 0 {
        lemma_segments_bytes_nonneg(segs.take(n), sizes);
    }
}

proof fn lemma_segments_bytes_nonneg(segs: Seq<BodySegment>, sizes: Seq<u64>)
    ensures
        segments_bytes(segs, sizes) >= 0,
    decreases segs.len(),
{
    if segs.len() > 0 {
        lemma_segments_bytes_nonneg(segs.drop_last(), sizes);
    }
}

/// How many bytes a body plan sends, given the sizes of its stored files.
pub fn plan_body_bytes(plan: &RequestBodyPlan, sizes: &[u64]) -> (r: u64)
    requires
        sizes_fit(*plan, sizes@),
        plan_bytes(*plan, sizes@) <= u64::MAX,
    ensures
        r == plan_bytes(*plan, sizes@),
{
    match plan {
        RequestBodyPlan::NoBody => 0,
        RequestBodyPlan::Inline { content, .. } => content.as_str().as_bytes().len() as u64,
        RequestBodyPlan::BinaryBlob { .. } => sizes[0],
        RequestBodyPlan::Multipart { segments, .. } => {
            let mut total: u64 = 0;
            let mut i: usize = 0;
            while i < segments.len()
                invariant
                    i <= segments.len(),
                    sizes@.len() == segments@.len(),
                    segments_bytes(segments@, sizes@) <= u64::MAX,
                    total == segments_bytes(segments@.take(i as int), sizes@),
                decreases segments.len() - i,
            {
                proof {
                    assert(segments@.take(i + 1).drop_last() =~= segments@.take(i as int));
                    assert(segments@.take(i + 1).last() == segments@[i as int]);
                    lemma_segments_bytes_grow(segments@, sizes@, i + 1);
                }
                let add: u64 = match &segments[i] {
                    BodySegment::Text(t) => t.as_str().as_bytes().len() as u64,
                    BodySegment::Blob { .. } => sizes[i],
                };
                total = total + add;
                i = i + 1;
            }
            proof {
                assert(segments@.take(i as int) =~= segments@);
            }
            total
        },
    }
}

} // verus!
