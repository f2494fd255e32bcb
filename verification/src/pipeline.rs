//! The upload pipeline.
//!
//! One inbound upload is processed in a fixed order: required headers are
//! checked, the signature is verified against a three-bucket nonce window,
//! the destination root is resolved, the file field is validated, and the
//! body is streamed under a size cap with the format sniffed on the first
//! chunk. Every decision along that path is made here, in verified code;
//! the application layer only moves bytes.

use vstd::prelude::*;
use vstd::string::StrSliceExecFns;
use vstd::string::StringExecFns;
use vstd::string::is_ascii;
use vstd::string::StringSliceAdditionalSpecFns;
use crate::codec::{ascii_bytes, decimal_chars, hex_chars, lemma_decimal_chars_digits,
    u64_to_string};
use crate::crypto::{sha1_digest, sig_ok, verify_signature};
use crate::error::{ErrorKind, MyError};
use crate::sniff::{classify, classify_spec, ext_chars, extension_of, ImageKind};
use crate::store::{filename_ok, final_name_chars, path_join, resolved_dir,
    staging_name_chars, validate_filename, final_path, staging_path, StoreConfig};
use crate::crypto::sha1_hex;

verus! {

broadcast use vstd::string::is_ascii_spec_bytes;

/// Maximum accepted upload size: 20 MiB.
pub const MAX_UPLOAD_BYTES: u64 = 20 * 1024 * 1024;

/// A valid signature for one nonce value: a signature over the decimal
/// string of the nonce.
pub open spec fn nonce_sig_ok(key: Seq<u8>, n: u64, sig: Seq<char>) -> bool {
    sig_ok(key, ascii_bytes(decimal_chars(n as nat)), sig)
}

/// A signature acceptable at current nonce `current`: valid for one of the
/// three buckets `current - 1`, `current`, `current + 1`. The tolerance
/// absorbs clock and network skew between nonce issuance and verification.
pub open spec fn window_ok(key: Seq<u8>, current: u64, sig: Seq<char>) -> bool
    recommends
        1 <= current < u64::MAX,
{
    ||| nonce_sig_ok(key, (current - 1) as u64, sig)
    ||| nonce_sig_ok(key, current, sig)
    ||| nonce_sig_ok(key, (current + 1) as u64, sig)
}

/// Verifies `signature` against the decimal string of a single nonce value.
pub fn verify_nonce_signature(secret_key: &[u8], n: u64, signature: &str) -> (r: bool)
    ensures
        r == nonce_sig_ok(secret_key@, n, signature@),
{
    let num = u64_to_string(n);
    let m = num.as_str();
    proof {
        lemma_decimal_chars_digits(n as nat);
        assert(is_ascii(m));
        assert(m.spec_bytes() =~= ascii_bytes(decimal_chars(n as nat)));
    }
    let bytes = m.as_bytes();
    verify_signature(secret_key, bytes, signature)
}

/// Verifies a signature against a set of acceptable nonce values: true
/// exactly when it is valid for at least one of them.
pub fn verify_signature_nonce_range(secret_key: &str, nonce: &[u64], signature: &str) -> (r: bool)
    ensures
        r == exists|i: int|
            0 <= i < nonce@.len() && nonce_sig_ok(secret_key.spec_bytes(), #[trigger] nonce@[i],
                signature@),
{
    let key = secret_key.as_bytes();
    let mut i: usize = 0;
    while i < nonce.len()
        invariant
            i <= nonce@.len(),
            key@ == secret_key.spec_bytes(),
            forall|j: int|
                0 <= j < i ==> !nonce_sig_ok(secret_key.spec_bytes(), #[trigger] nonce@[j],
                    signature@),
        decreases nonce@.len() - i,
    {
        if verify_nonce_signature(key, nonce[i], signature) {
            proof {
                assert(nonce_sig_ok(secret_key.spec_bytes(), nonce@[i as int], signature@));
            }
            return true;
        }
        i = i + 1;
    }
    false
}

/// The three-bucket acceptance window around the current nonce.
pub fn nonce_window(current: u64) -> (r: Vec<u64>)
    requires
        1 <= current < u64::MAX,
    ensures
        r@ =~= seq![(current - 1) as u64, current, (current + 1) as u64],
{
    let mut w: Vec<u64> = Vec::new();
    w.push(current - 1);
    w.push(current);
    w.push(current + 1);
    w
}

/// Checks a required header value as handed over by the HTTP layer:
/// present and non-empty, or the matching client error.
pub fn get_header_value<'a>(key: &str, value: Option<&'a str>) -> (r: Result<&'a str, MyError>)
    ensures
        (r is Err) <==> (value is None || value->0@.len() == 0),
        r is Ok ==> value == Some(r->Ok_0) && r->Ok_0@.len() > 0,
        r is Err ==> r->Err_0.kind == (if value is None {
            ErrorKind::MissingHeader
        } else {
            ErrorKind::EmptyHeader
        }),
        r is Err ==> r->Err_0.message@ == (if value is None {
            "No "@ + key@ + " header"@
        } else {
            key@ + " header is empty"@
        }),
{
    match value {
        None => {
            let mut msg = String::new();
            msg.append("No ");
            msg.append(key);
            msg.append(" header");
            Err(MyError::new(ErrorKind::MissingHeader, msg))
        },
        Some(v) => {
            if v.is_empty() {
                let mut msg = String::new();
                msg.append(key);
                msg.append(" header is empty");
                Err(MyError::new(ErrorKind::EmptyHeader, msg))
            } else {
                Ok(v)
            }
        },
    }
}

/// The authentication decision for one request: the error owed to the
/// supplied headers, or nothing when the request is authorized. Required
/// headers must be present and non-empty, and the signature must match one
/// nonce in the acceptance window; the client's nonce hint is never
/// trusted for authorization.
pub open spec fn auth_decision(
    key: Seq<u8>,
    current: u64,
    signature: Option<&str>,
    nonce_hint: Option<&str>,
) -> Option<ErrorKind> {
    if signature is None {
        Some(ErrorKind::MissingHeader)
    } else if signature->0@.len() == 0 {
        Some(ErrorKind::EmptyHeader)
    } else if nonce_hint is None {
        Some(ErrorKind::MissingHeader)
    } else if nonce_hint->0@.len() == 0 {
        Some(ErrorKind::EmptyHeader)
    } else if !window_ok(key, current, signature->0@) {
        Some(ErrorKind::InvalidSignature)
    } else {
        None
    }
}

/// Authenticates one request from its headers: the signature must be a
/// valid signature of the decimal string of a nonce in the acceptance
/// window around `current_nonce`. The nonce hint header is required but
/// advisory only; authorization rests on the signature alone.
pub fn authorize(
    secret_key: &str,
    current_nonce: u64,
    signature: Option<&str>,
    nonce_hint: Option<&str>,
) -> (r: Result<(), MyError>)
    requires
        1 <= current_nonce < u64::MAX,
    ensures
        (r is Ok) <==> auth_decision(secret_key.spec_bytes(), current_nonce, signature, nonce_hint)
            is None,
        r is Err ==> Some(r->Err_0.kind) == auth_decision(
            secret_key.spec_bytes(),
            current_nonce,
            signature,
            nonce_hint,
        ),
{
    let sig = match get_header_value("X-Signature", signature) {
        Ok(v) => v,
        Err(e) => {
            return Err(e);
        },
    };
    match get_header_value("X-Nonce", nonce_hint) {
        Ok(_) => (),
        Err(e) => {
            return Err(e);
        },
    };
    let window = nonce_window(current_nonce);
    if verify_signature_nonce_range(secret_key, window.as_slice(), signature.unwrap()) {
        proof {
            let key = secret_key.spec_bytes();
            let w = seq![(current_nonce - 1) as u64, current_nonce, (current_nonce + 1) as u64];
            assert(exists|i: int|
                0 <= i < w.len() && nonce_sig_ok(key, #[trigger] w[i], sig@));
            assert(window_ok(key, current_nonce, sig@));
        }
        Ok(())
    } else {
        proof {
            let key = secret_key.spec_bytes();
            let w = seq![(current_nonce - 1) as u64, current_nonce, (current_nonce + 1) as u64];
            assert(w[0] == (current_nonce - 1) as u64);
            assert(w[1] == current_nonce);
            assert(w[2] == (current_nonce + 1) as u64);
        }
        Err(MyError::new(ErrorKind::InvalidSignature, "Invalid signature.".to_owned()))
    }
}

/// The bytes of a chunked stream, in arrival order.
pub open spec fn stream_bytes(chunks: Seq<Seq<u8>>) -> Seq<u8>
    decreases chunks.len(),
{
    if chunks.len() == 0 {
        Seq::empty()
    } else {
        chunks[0] + stream_bytes(chunks.drop_first())
    }
}

/// The total byte length of a chunked stream.
pub open spec fn total_len(chunks: Seq<Seq<u8>>) -> nat
    decreases chunks.len(),
{
    if chunks.len() == 0 {
        0
    } else {
        chunks[0].len() + total_len(chunks.drop_first())
    }
}

/// Appending one chunk extends the stream's bytes and adds its length.
pub proof fn lemma_stream_push(chunks: Seq<Seq<u8>>, c: Seq<u8>)
    ensures
        stream_bytes(chunks.push(c)) =~= stream_bytes(chunks) + c,
        total_len(chunks.push(c)) == total_len(chunks) + c.len(),
    decreases chunks.len(),
{
    if chunks.len() == 0 {
        assert(chunks.push(c).drop_first() =~= Seq::<Seq<u8>>::empty());
        assert(chunks.push(c)[0] == c);
        assert(stream_bytes(chunks.push(c)) == c + stream_bytes(Seq::<Seq<u8>>::empty()));
        assert(stream_bytes(chunks) == Seq::<u8>::empty());
        assert(total_len(chunks.push(c)) == c.len() + total_len(Seq::<Seq<u8>>::empty()));
    } else {
        lemma_stream_push(chunks.drop_first(), c);
        assert(chunks.push(c).drop_first() =~= chunks.drop_first().push(c));
        assert(chunks.push(c)[0] == chunks[0]);
        assert(stream_bytes(chunks.push(c)) == chunks[0] + stream_bytes(
            chunks.drop_first().push(c),
        ));
        assert(stream_bytes(chunks) == chunks[0] + stream_bytes(chunks.drop_first()));
        assert(total_len(chunks.push(c)) == chunks[0].len() + total_len(
            chunks.drop_first().push(c),
        ));
        assert(total_len(chunks) == chunks[0].len() + total_len(chunks.drop_first()));
    }
}

/// A stream is at least as long as any of its prefixes.
pub proof fn lemma_total_len_prefix(chunks: Seq<Seq<u8>>, i: int)
    requires
        0 <= i <= chunks.len(),
    ensures
        total_len(chunks.take(i)) <= total_len(chunks),
    decreases i, chunks.len(),
{
    if i == 0 {
        assert(chunks.take(0) =~= Seq::<Seq<u8>>::empty());
    } else {
        lemma_total_len_prefix(chunks.drop_first(), i - 1);
        assert(chunks.take(i).drop_first() =~= chunks.drop_first().take(i - 1));
        assert(chunks.take(i)[0] == chunks[0]);
    }
}

/// The outcome owed to a chunked body under a size cap: a stream is
/// accepted when its first chunk carries an accepted format's magic number
/// and the cumulative size never exceeds the cap; cumulative size is
/// checked before the format on each chunk, so an oversized first chunk is
/// a size error even when its format is valid. A body with no chunks was
/// never classified and is rejected.
pub open spec fn stream_decision(chunks: Seq<Seq<u8>>, max: nat) -> Result<ImageKind, ErrorKind> {
    if chunks.len() == 0 {
        Err(ErrorKind::UnsupportedFormat)
    } else if chunks[0].len() > max {
        Err(ErrorKind::SizeLimit)
    } else if classify_spec(chunks[0]) is None {
        Err(ErrorKind::UnsupportedFormat)
    } else if total_len(chunks) > max {
        Err(ErrorKind::SizeLimit)
    } else {
        Ok(classify_spec(chunks[0])->0)
    }
}

/// The running state of one streaming upload: the chunks accepted so far,
/// their cumulative size, and the format classified from the first chunk.
pub struct UploadStream {
    /// Bytes accepted so far.
    pub total: u64,
    /// The format classified from the first chunk, once one arrived.
    pub kind: Option<ImageKind>,
    /// The chunks accepted so far.
    pub seen: Ghost<Seq<Seq<u8>>>,
}

impl UploadStream {
    /// The state is consistent: the size counter matches the accepted
    /// chunks, stays under the cap, and the classification is exactly that
    /// of the first accepted chunk.
    pub open spec fn wf(&self) -> bool {
        &&& self.total == total_len(self.seen@)
        &&& self.total <= MAX_UPLOAD_BYTES
        &&& match self.kind {
            None => self.seen@.len() == 0,
            Some(k) => self.seen@.len() > 0 && classify_spec(self.seen@[0]) == Some(k),
        }
    }

    /// A fresh stream with nothing accepted.
    pub fn begin() -> (r: UploadStream)
        ensures
            r.wf(),
            r.seen@ =~= Seq::<Seq<u8>>::empty(),
    {
        UploadStream { total: 0, kind: None, seen: Ghost(Seq::empty()) }
    }

    /// Accepts or rejects the next body chunk. The cumulative size is
    /// checked first: a chunk that would push it past the cap is a size
    /// error. The first chunk is then classified: an unrecognized format
    /// aborts the upload. An accepted chunk is recorded and may be written
    /// to staging; on an error the state is unchanged and the upload must
    /// be abandoned.
    pub fn accept_chunk(&mut self, chunk: &[u8]) -> (r: Result<(), MyError>)
        requires
            old(self).wf(),
        ensures
            final(self).wf(),
            (r is Ok) <==> (total_len(old(self).seen@) + chunk@.len() <= MAX_UPLOAD_BYTES && (old(
                self,
            ).seen@.len() > 0 || classify_spec(chunk@) is Some)),
            r is Ok ==> final(self).seen@ =~= old(self).seen@.push(chunk@),
            r is Err ==> *final(self) == *old(self),
            r is Err ==> r->Err_0.kind == (if total_len(old(self).seen@) + chunk@.len()
                > MAX_UPLOAD_BYTES {
                ErrorKind::SizeLimit
            } else {
                ErrorKind::UnsupportedFormat
            }),
    {
        let len = chunk.len() as u64;
        if len > MAX_UPLOAD_BYTES - self.total {
            return Err(
                MyError::new(ErrorKind::SizeLimit, "File size exceeds 20 MB limit".to_owned()),
            );
        }
        if self.kind.is_none() {
            match classify(chunk) {
                Some(k) => {
                    self.kind = Some(k);
                },
                None => {
                    return Err(
                        MyError::new(
                            ErrorKind::UnsupportedFormat,
                            "Invalid file format. Must be JPEG or PNG.".to_owned(),
                        ),
                    );
                },
            }
        }
        self.total = self.total + len;
        proof {
            lemma_stream_push(self.seen@, chunk@);
        }
        self.seen = Ghost(self.seen@.push(chunk@));
        Ok(())
    }

    /// Closes the stream: the classified format of an upload that carried
    /// at least one chunk, or a rejection for an empty body that was never
    /// classified.
    pub fn finish(&self) -> (r: Result<ImageKind, MyError>)
        requires
            self.wf(),
        ensures
            (r is Ok) <==> self.seen@.len() > 0,
            r is Ok ==> Some(r->Ok_0) == classify_spec(self.seen@[0]),
            r is Err ==> r->Err_0.kind == ErrorKind::UnsupportedFormat,
    {
        match self.kind {
            Some(k) => Ok(k),
            None => Err(
                MyError::new(
                    ErrorKind::UnsupportedFormat,
                    "Invalid file format. Must be JPEG or PNG.".to_owned(),
                ),
            ),
        }
    }
}

/// A stream whose first chunk carries no accepted format's magic number —
/// or fewer than ten bytes — is never stored: whatever follows it, the
/// decision is a rejection, so nothing ever reaches the final store.
pub proof fn lemma_bad_format_rejected(chunks: Seq<Seq<u8>>, max: nat)
    requires
        chunks.len() > 0,
        classify_spec(chunks[0]) is None,
    ensures
        stream_decision(chunks, max) is Err,
{
}

/// A stream whose cumulative size exceeds the cap is rejected with the
/// size-limit condition, even when its format signature is valid.
pub proof fn lemma_oversize_rejected(chunks: Seq<Seq<u8>>, max: nat)
    requires
        chunks.len() > 0,
        classify_spec(chunks[0]) is Some,
        total_len(chunks) > max,
    ensures
        stream_decision(chunks, max) == Err::<ImageKind, ErrorKind>(ErrorKind::SizeLimit),
{
    assert(total_len(chunks) == chunks[0].len() + total_len(chunks.drop_first()));
}

/// The one file field of a multipart upload body, as received: the client
/// filename from its content disposition, if any, and its chunks in
/// arrival order. Only the first field of a request is considered.
#[derive(Debug)]
pub struct FilePart {
    /// The client-supplied filename, when the field carried one.
    pub filename: Option<String>,
    /// The field's body chunks, in arrival order.
    pub chunks: Vec<Vec<u8>>,
}

/// The successful outcome of one upload: what the response reports, plus
/// the staging and final paths the stored object moved through.
#[derive(Debug)]
pub struct UploadOutcome {
    /// The server's nonce at verification time.
    pub nonce: u64,
    /// The lowercase hex SHA-1 digest of the stored content.
    pub sha1: String,
    /// The canonical extension of the classified format.
    pub extension: String,
    /// The destination index honoured, when one was supplied.
    pub dindex: Option<String>,
    /// The staging path the content streamed into.
    pub staging_path: String,
    /// The content-addressed final path.
    pub final_path: String,
}

/// Concatenates the chunks of a body into one buffer.
fn concat_chunks(chunks: &Vec<Vec<u8>>) -> (r: Vec<u8>)
    ensures
        r@ =~= stream_bytes(chunks.deep_view()),
{
    let ghost deep = chunks.deep_view();
    let mut out: Vec<u8> = Vec::new();
    proof {
        assert(deep.take(0) =~= Seq::<Seq<u8>>::empty());
    }
    let mut i: usize = 0;
    while i < chunks.len()
        invariant
            i <= chunks@.len(),
            deep == chunks.deep_view(),
            out@ =~= stream_bytes(deep.take(i as int)),
        decreases chunks@.len() - i,
    {
        let chunk = &chunks[i];
        let mut j: usize = 0;
        proof {
            assert(deep[i as int] == chunks@[i as int]@);
        }
        while j < chunk.len()
            invariant
                i < chunks@.len(),
                j <= chunk@.len(),
                deep == chunks.deep_view(),
                chunk@ == chunks@[i as int]@,
                deep[i as int] == chunk@,
                out@ =~= stream_bytes(deep.take(i as int)) + chunk@.take(j as int),
            decreases chunk@.len() - j,
        {
            out.push(chunk[j]);
            proof {
                assert(chunk@.take(j + 1) =~= chunk@.take(j as int).push(chunk@[j as int]));
            }
            j = j + 1;
        }
        proof {
            assert(chunk@.take(chunk@.len() as int) =~= chunk@);
            lemma_stream_push(deep.take(i as int), deep[i as int]);
            assert(deep.take(i + 1) =~= deep.take(i as int).push(deep[i as int]));
        }
        i = i + 1;
    }
    proof {
        assert(deep.take(chunks@.len() as int) =~= deep);
    }
    out
}

/// The error owed to one upload request, or nothing when it succeeds: the
/// first failing check in pipeline order — authentication, destination
/// resolution, presence of the file field and its filename, then the
/// streamed body itself.
pub open spec fn upload_error(
    key: Seq<u8>,
    current: u64,
    signature: Option<&str>,
    nonce_hint: Option<&str>,
    dir_index: Option<&str>,
    cfg: &StoreConfig,
    part: Option<&FilePart>,
) -> Option<ErrorKind> {
    if auth_decision(key, current, signature, nonce_hint) is Some {
        auth_decision(key, current, signature, nonce_hint)
    } else if resolved_dir(cfg, dir_index) is None {
        Some(ErrorKind::UnknownDirIndex)
    } else if part is None {
        Some(ErrorKind::NoFile)
    } else if part->0.filename is None {
        Some(ErrorKind::NoFilename)
    } else if !filename_ok(part->0.filename->0@) {
        Some(ErrorKind::InvalidFilename)
    } else if stream_decision(part->0.chunks.deep_view(), MAX_UPLOAD_BYTES as nat) is Err {
        Some(stream_decision(part->0.chunks.deep_view(), MAX_UPLOAD_BYTES as nat)->Err_0)
    } else {
        None
    }
}

/// Processes one upload request end to end: authenticates the caller,
/// resolves the destination root, validates the file field, streams its
/// chunks under the size cap with the format sniffed on the first chunk,
/// and on success reports the content address. Authentication strictly
/// precedes any look at the body. The returned paths say where the
/// application layer stages the bytes and where the object finally lands;
/// the final name is derived from the content alone, so identical content
/// lands on the same path whatever its filename.
pub fn process_upload(
    cfg: &StoreConfig,
    secret_key: &str,
    current_nonce: u64,
    staging_nonce: u64,
    signature: Option<&str>,
    nonce_hint: Option<&str>,
    dir_index: Option<&str>,
    part: Option<&FilePart>,
) -> (r: Result<UploadOutcome, MyError>)
    requires
        1 <= current_nonce < u64::MAX,
    ensures
        (r is Err) <==> upload_error(
            secret_key.spec_bytes(),
            current_nonce,
            signature,
            nonce_hint,
            dir_index,
            cfg,
            part,
        ) is Some,
        r is Err ==> Some(r->Err_0.kind) == upload_error(
            secret_key.spec_bytes(),
            current_nonce,
            signature,
            nonce_hint,
            dir_index,
            cfg,
            part,
        ),
        r is Ok ==> ({
            let p = part->0;
            let name = p.filename->0@;
            let content = stream_bytes(p.chunks.deep_view());
            let kind = classify_spec(p.chunks.deep_view()[0])->0;
            let dir = resolved_dir(cfg, dir_index)->0;
            let out = r->Ok_0;
            &&& out.nonce == current_nonce
            &&& out.sha1@ =~= hex_chars(sha1_digest(content))
            &&& out.sha1@.len() == 40
            &&& out.extension@ =~= ext_chars(kind)
            &&& (match out.dindex {
                None => dir_index is None || dir_index->0@.len() == 0,
                Some(d) => dir_index is Some && d@ == dir_index->0@ && dir_index->0@.len() > 0,
            })
            &&& out.staging_path@ =~= path_join(
                dir,
                staging_name_chars(staging_nonce as nat, name),
            )
            &&& out.final_path@ =~= path_join(dir, final_name_chars(content, kind))
        }),
{
    match authorize(secret_key, current_nonce, signature, nonce_hint) {
        Ok(()) => (),
        Err(e) => {
            return Err(e);
        },
    }
    let (dir, dindex) = match cfg.resolve_dir(dir_index) {
        Ok(pair) => pair,
        Err(e) => {
            return Err(e);
        },
    };
    let p = match part {
        Some(p) => p,
        None => {
            return Err(MyError::new(ErrorKind::NoFile, "No file uploaded".to_owned()));
        },
    };
    let filename = match &p.filename {
        Some(f) => f,
        None => {
            return Err(
                MyError::new(ErrorKind::NoFilename, "No filename in content disposition".to_owned()),
            );
        },
    };
    if !validate_filename(filename.as_str()) {
        return Err(MyError::new(ErrorKind::InvalidFilename, "Invalid filename.".to_owned()));
    }
    let ghost deep = p.chunks.deep_view();
    let mut stream = UploadStream::begin();
    proof {
        assert(deep.take(0) =~= Seq::<Seq<u8>>::empty());
    }
    let mut i: usize = 0;
    while i < p.chunks.len()
        invariant
            1 <= current_nonce < u64::MAX,
            i <= p.chunks@.len(),
            deep == p.chunks.deep_view(),
            stream.wf(),
            stream.seen@ =~= deep.take(i as int),
            auth_decision(secret_key.spec_bytes(), current_nonce, signature, nonce_hint)
                is None,
            resolved_dir(cfg, dir_index) is Some,
            part == Some(p),
            p.filename == Some(*filename) || p.filename is Some,
            p.filename->0@ == filename@,
            filename_ok(filename@),
        decreases p.chunks@.len() - i,
    {
        proof {
            assert(deep[i as int] == p.chunks@[i as int]@);
        }
        let chunk = &p.chunks[i];
        match stream.accept_chunk(chunk.as_slice()) {
            Ok(()) => {
                proof {
                    assert(deep.take(i + 1) =~= deep.take(i as int).push(deep[i as int]));
                }
            },
            Err(e) => {
                proof {
                    lemma_stream_push(deep.take(i as int), deep[i as int]);
                    assert(deep.take(i + 1) =~= deep.take(i as int).push(deep[i as int]));
                    lemma_total_len_prefix(deep, i + 1);
                    if total_len(deep.take(i as int)) + deep[i as int].len()
                        > MAX_UPLOAD_BYTES as nat {
                        if i == 0 {
                            assert(deep.take(0) =~= Seq::<Seq<u8>>::empty());
                            assert(deep[0].len() > MAX_UPLOAD_BYTES);
                        } else {
                            assert(total_len(deep) > MAX_UPLOAD_BYTES);
                            assert(deep.take(i as int)[0] == deep[0]);
                            assert(total_len(deep.take(i as int)) >= deep[0].len());
                            assert(deep[0].len() <= MAX_UPLOAD_BYTES);
                        }
                        assert(stream_decision(deep, MAX_UPLOAD_BYTES as nat) == Err::<
                            ImageKind,
                            ErrorKind,
                        >(ErrorKind::SizeLimit));
                    } else {
                        assert(i == 0);
                        assert(classify_spec(deep[0]) is None);
                        assert(stream_decision(deep, MAX_UPLOAD_BYTES as nat) == Err::<
                            ImageKind,
                            ErrorKind,
                        >(ErrorKind::UnsupportedFormat));
                    }
                }
                return Err(e);
            },
        }
        i = i + 1;
    }
    proof {
        assert(deep.take(p.chunks@.len() as int) =~= deep);
    }
    let kind = match stream.finish() {
        Ok(k) => k,
        Err(e) => {
            proof {
                assert(deep.len() == 0);
            }
            return Err(e);
        },
    };
    proof {
        assert(deep.len() > 0);
        assert(classify_spec(deep[0]) == Some(kind));
        assert(total_len(deep) <= MAX_UPLOAD_BYTES);
        assert(total_len(deep) >= deep[0].len());
        assert(stream_decision(deep, MAX_UPLOAD_BYTES as nat) == Ok::<ImageKind, ErrorKind>(kind));
    }
    let content = concat_chunks(&p.chunks);
    let hash = sha1_hex(content.as_slice());
    let ext = extension_of(kind);
    let spath = staging_path(dir.as_str(), staging_nonce, filename.as_str());
    let fpath = final_path(dir.as_str(), hash.as_str(), ext);
    Ok(
        UploadOutcome {
            nonce: current_nonce,
            sha1: hash,
            extension: ext.to_owned(),
            dindex,
            staging_path: spath,
            final_path: fpath,
        },
    )
}

/// A signature computed for a nonce `n` is accepted whenever the
/// verifier's current nonce is `n - 1`, `n` or `n + 1`: issuing and
/// verifying may fall in adjacent buckets without losing the caller.
pub proof fn lemma_window_accepts_adjacent(key: Seq<u8>, n: u64, current: u64, sig: Seq<char>)
    requires
        1 <= current < u64::MAX,
        nonce_sig_ok(key, n, sig),
        current == n - 1 || current == n || current == n + 1,
    ensures
        window_ok(key, current, sig),
{
}

} // verus!
