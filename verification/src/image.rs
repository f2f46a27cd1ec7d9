//! The firmware image: the concatenation, in decode order, of the payloads
//! of every data record of a hex-record stream, and the extraction step that
//! turns the captured output of the external object-copy tool into one.

use vstd::prelude::*;

verus! {

use vstd::utf8::valid_utf8;
use crate::record::{HexRecord, RecordView};
use crate::decode::{decode, records_of, split_lines, views_of};

/// Payload a record contributes to the image: data records contribute their
/// payload, every other record contributes nothing.
pub open spec fn data_payload(r: RecordView) -> Seq<u8> {
    match r {
        RecordView::Data { offset, payload } => payload,
        _ => Seq::<u8>::empty(),
    }
}

/// The image a record sequence assembles to: the concatenation of the data
/// payloads, in record order.
pub open spec fn image_of(records: Seq<RecordView>) -> Seq<u8>
    decreases records.len(),
{
    if records.len() == 0 {
        Seq::<u8>::empty()
    } else {
        data_payload(records[0]) + image_of(records.drop_first())
    }
}

/// The image a whole hex-record text stream decodes to.
pub open spec fn firmware_of(text: Seq<u8>) -> Seq<u8> {
    image_of(records_of(split_lines(text)))
}

/// An ordered sequence of firmware bytes, immutable once constructed.
#[derive(Debug, Clone, PartialEq, Eq)]
pub struct FirmwareImage {
    pub bytes: Vec<u8>,
}

impl View for FirmwareImage {
    type V = Seq<u8>;

    open spec fn view(&self) -> Seq<u8> {
        self.bytes@
    }
}

/// Assembling distributes over concatenation of record sequences.
pub proof fn lemma_image_of_concat(r1: Seq<RecordView>, r2: Seq<RecordView>)
    ensures
        image_of(r1 + r2) == image_of(r1) + image_of(r2),
    decreases r1.len(),
{
    if r1.len() == 0 {
        assert(r1 + r2 =~= r2);
        assert(image_of(r1) + image_of(r2) =~= image_of(r2));
    } else {
        assert((r1 + r2).len() > 0);
        assert((r1 + r2)[0] == r1[0]);
        assert((r1 + r2).drop_first() =~= r1.drop_first() + r2);
        lemma_image_of_concat(r1.drop_first(), r2);
        assert(data_payload(r1[0]) + (image_of(r1.drop_first()) + image_of(r2))
            =~= (data_payload(r1[0]) + image_of(r1.drop_first())) + image_of(r2));
    }
}

/// Two records carry the same payload: both are data records with equal
/// payloads, or neither is a data record. Their declared offsets are free.
pub open spec fn same_payload(a: RecordView, b: RecordView) -> bool {
    &&& (a is Data <==> b is Data)
    &&& (a is Data ==> data_payload(a) == data_payload(b))
}

/// The image depends only on which records are data records and on their
/// payloads, in order: the declared offsets never move a byte, even when
/// they are non-monotonic or overlapping.
pub proof fn lemma_image_ignores_offsets(r1: Seq<RecordView>, r2: Seq<RecordView>)
    requires
        r1.len() == r2.len(),
        forall|k: int| 0 <= k < r1.len() ==> same_payload(r1[k], r2[k]),
    ensures
        image_of(r1) == image_of(r2),
    decreases r1.len(),
{
    if r1.len() > 0 {
        assert(same_payload(r1[0], r2[0]));
        assert forall|k: int| 0 <= k < r1.drop_first().len()
            implies same_payload(r1.drop_first()[k], r2.drop_first()[k]) by {
            assert(same_payload(r1[k + 1], r2[k + 1]));
        }
        lemma_image_ignores_offsets(r1.drop_first(), r2.drop_first());
        assert(data_payload(r1[0]) == data_payload(r2[0]));
    }
}

/// A record that is not a data record can be inserted anywhere in a record
/// sequence without changing the image: malformed lines interleaved with
/// valid data records leave only the valid payloads, and raise no error.
pub proof fn lemma_non_data_skipped(records: Seq<RecordView>, i: int, r: RecordView)
    requires
        0 <= i <= records.len(),
        !(r is Data),
    ensures
        image_of(records.insert(i, r)) == image_of(records),
{
    let front = records.subrange(0, i);
    let back = records.subrange(i, records.len() as int);
    assert(records.insert(i, r) =~= (front + seq![r]) + back);
    assert(records =~= front + back);
    lemma_image_of_concat(front + seq![r], back);
    lemma_image_of_concat(front, seq![r]);
    lemma_image_of_concat(front, back);
    assert(seq![r].drop_first() =~= Seq::<RecordView>::empty());
    assert(seq![r][0] == r);
    assert(data_payload(r) =~= Seq::<u8>::empty());
    assert(data_payload(r) + Seq::<u8>::empty() =~= Seq::<u8>::empty());
    assert(image_of(Seq::<RecordView>::empty()) =~= Seq::<u8>::empty());
    assert(image_of(seq![r]) =~= Seq::<u8>::empty());
    assert(image_of(front) + Seq::<u8>::empty() =~= image_of(front));
}

/// The subsequence of the data records of a record stream, in order.
pub open spec fn data_records(records: Seq<RecordView>) -> Seq<RecordView>
    decreases records.len(),
{
    if records.len() == 0 {
        records
    } else if records.last() is Data {
        data_records(records.drop_last()).push(records.last())
    } else {
        data_records(records.drop_last())
    }
}

/// The image of a record stream is the image of its data records alone:
/// the non-data records interleaved with them contribute nothing.
pub proof fn lemma_image_is_data_only(records: Seq<RecordView>)
    ensures
        image_of(records) == image_of(data_records(records)),
    decreases records.len(),
{
    if records.len() > 0 {
        let rest = records.drop_last();
        let last = records.last();
        lemma_image_is_data_only(rest);
        assert(records =~= rest + seq![last]);
        lemma_image_of_concat(rest, seq![last]);
        assert(seq![last].drop_first() =~= Seq::<RecordView>::empty());
        assert(image_of(Seq::<RecordView>::empty()) =~= Seq::<u8>::empty());
        assert(seq![last][0] == last);
        if last is Data {
            let kept = data_records(rest);
            assert(data_records(records) == kept.push(last));
            assert(kept.push(last) =~= kept + seq![last]);
            lemma_image_of_concat(kept, seq![last]);
        } else {
            assert(data_records(records) == data_records(rest));
            assert(data_payload(last) =~= Seq::<u8>::empty());
            assert(image_of(rest) + (Seq::<u8>::empty() + Seq::<u8>::empty())
                =~= image_of(rest));
        }
    }
}

/// A record sequence with no data record assembles to the empty image.
pub proof fn lemma_no_data_empty_image(records: Seq<RecordView>)
    requires
        forall|k: int| 0 <= k < records.len() ==> !(records[k] is Data),
    ensures
        image_of(records) == Seq::<u8>::empty(),
    decreases records.len(),
{
    if records.len() > 0 {
        assert(!(records[0] is Data));
        lemma_no_data_empty_image(records.drop_first());
        assert(data_payload(records[0]) + Seq::<u8>::empty() =~= Seq::<u8>::empty());
    }
}

/// Assemble decoded records into a firmware image by appending the payload
/// bytes of every data record, in record order.
pub fn assemble(records: &Vec<HexRecord>) -> (image: FirmwareImage)
    ensures
        image@ == image_of(views_of(records@)),
{
    let mut bytes: Vec<u8> = Vec::new();
    let mut i: usize = 0;
    proof {
        assert(views_of(records@).subrange(0, 0) =~= Seq::<RecordView>::empty());
    }
    while i < records.len()
        invariant
            0 <= i <= records@.len(),
            bytes@ == image_of(views_of(records@).subrange(0, i as int)),
        decreases records@.len() - i,
    {
        let ghost prefix = views_of(records@).subrange(0, i as int);
        match &records[i] {
            HexRecord::Data { offset: _, payload } => {
                let ghost before = bytes@;
                let mut k: usize = 0;
                while k < payload.len()
                    invariant
                        0 <= k <= payload@.len(),
                        bytes@ == before + payload@.subrange(0, k as int),
                    decreases payload@.len() - k,
                {
                    bytes.push(payload[k]);
                    proof {
                        assert(before + payload@.subrange(0, k + 1)
                            =~= (before + payload@.subrange(0, k as int)).push(payload@[k as int]));
                    }
                    k = k + 1;
                }
                proof {
                    assert(payload@.subrange(0, payload@.len() as int) =~= payload@);
                }
            },
            _ => {},
        }
        proof {
            let v = views_of(records@);
            assert(v.subrange(0, i + 1) =~= prefix + seq![v[i as int]]);
            lemma_image_of_concat(prefix, seq![v[i as int]]);
            assert(seq![v[i as int]].drop_first() =~= Seq::<RecordView>::empty());
            assert(seq![v[i as int]][0] == v[i as int]);
            assert(data_payload(v[i as int]) + Seq::<u8>::empty() =~= data_payload(v[i as int]));
            assert(image_of(Seq::<RecordView>::empty()) =~= Seq::<u8>::empty());
            assert(image_of(seq![v[i as int]]) =~= data_payload(v[i as int]));
            assert(v[i as int] == records@[i as int]@);
            assert(bytes@ =~= image_of(prefix) + data_payload(v[i as int]));
        }
        i = i + 1;
    }
    proof {
        assert(views_of(records@).subrange(0, records@.len() as int) =~= views_of(records@));
    }
    FirmwareImage { bytes }
}

/// Why an invocation of the pipeline failed. Every error is fatal: none is
/// retried or recovered internally.
#[derive(Debug, Clone, PartialEq, Eq)]
pub enum PipelineError {
    /// An external executable could not be launched.
    ExternalToolNotFound,
    /// An external tool ran but returned a non-zero exit status; carries the
    /// status code if the tool was not killed by a signal.
    ExternalToolFailed { code: Option<i32> },
    /// Captured output of the object-copy tool is not valid text.
    InvalidEncoding,
    /// Writing the firmware image to the destination file failed.
    IoWriteError,
    /// Neither an input path nor a completions request was supplied.
    UsageError,
}

/// Relies on core::str::from_utf8: it returns `Ok` exactly when the bytes
/// are valid UTF-8.
#[verifier::external_body]
fn utf8_check(bytes: &[u8]) -> (r: bool)
    ensures
        r == valid_utf8(bytes@),
{
    core::str::from_utf8(bytes).is_ok()
}

/// Turn the outcome of the external object-copy invocation into a firmware
/// image.
///
/// A non-zero exit status fails with `ExternalToolFailed` carrying the
/// status, and the captured output is discarded: no partial image is ever
/// produced. Output that is not valid text fails with `InvalidEncoding`.
/// Otherwise the output decodes to the image, and an output with no data
/// records yields an empty image, not an error.
pub fn extract_firmware(tool_success: bool, tool_code: Option<i32>, tool_stdout: &[u8]) -> (r:
    Result<FirmwareImage, PipelineError>)
    ensures
        !tool_success ==> (r matches Err(e)
            && e matches PipelineError::ExternalToolFailed { code } && code == tool_code),
        tool_success && !valid_utf8(tool_stdout@) ==> (r matches Err(e)
            && e is InvalidEncoding),
        tool_success && valid_utf8(tool_stdout@) ==> (r matches Ok(image)
            && image@ == firmware_of(tool_stdout@)),
{
    if !tool_success {
        return Err(PipelineError::ExternalToolFailed { code: tool_code });
    }
    if !utf8_check(tool_stdout) {
        return Err(PipelineError::InvalidEncoding);
    }
    let records = decode(tool_stdout);
    Ok(assemble(&records))
}

} // verus!
