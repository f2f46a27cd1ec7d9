//! Decoding a whole hex-record text stream: the text is split into lines
//! exactly as a text reader does (a line ends at a line feed; one trailing
//! carriage return is stripped), each line is classified as a record, and
//! the record sequence stops at the first end-of-file record.

use vstd::prelude::*;

verus! {

use crate::record::{HexRecord, RecordView, parse_record, parse_record_spec};

/// A line with one trailing carriage return removed.
pub open spec fn strip_cr(line: Seq<u8>) -> Seq<u8> {
    if line.len() > 0 && line.last() == 13u8 {
        line.drop_last()
    } else {
        line
    }
}

/// Index of the first line feed of `text`, or `text.len()` if there is none.
pub open spec fn first_newline(text: Seq<u8>) -> int
    decreases text.len(),
{
    if text.len() == 0 {
        0
    } else if text[0] == 10u8 {
        0
    } else {
        1 + first_newline(text.drop_first())
    }
}

/// The first line feed is at `m` if nothing before `m` is one and either `m`
/// is the end of the text or a line feed stands there.
pub proof fn lemma_first_newline_is(text: Seq<u8>, m: int)
    requires
        0 <= m <= text.len(),
        forall|k: int| 0 <= k < m ==> text[k] != 10u8,
        m < text.len() ==> text[m] == 10u8,
    ensures
        first_newline(text) == m,
    decreases text.len(),
{
    if text.len() == 0 {
    } else if text[0] == 10u8 {
        assert(m == 0);
    } else {
        assert(m >= 1);
        assert forall|k: int| 0 <= k < m - 1 implies text.drop_first()[k] != 10u8 by {
            assert(text[k + 1] != 10u8);
        }
        lemma_first_newline_is(text.drop_first(), m - 1);
    }
}

/// The lines of the text, split at every line feed; the final line needs no
/// terminator, and a terminated final line adds no empty line after it.
pub open spec fn split_lines(text: Seq<u8>) -> Seq<Seq<u8>>
    decreases text.len(),
{
    if text.len() == 0 {
        Seq::<Seq<u8>>::empty()
    } else {
        let i = first_newline(text);
        if 0 <= i < text.len() {
            seq![strip_cr(text.subrange(0, i))]
                + split_lines(text.subrange(i + 1, text.len() as int))
        } else {
            seq![strip_cr(text)]
        }
    }
}

/// The records the lines decode to, in line order, stopping at (and
/// including) the first end-of-file record.
pub open spec fn records_of(lines: Seq<Seq<u8>>) -> Seq<RecordView>
    decreases lines.len(),
{
    if lines.len() == 0 {
        Seq::<RecordView>::empty()
    } else {
        let r = parse_record_spec(lines[0]);
        if r is EndOfFile {
            seq![r]
        } else {
            seq![r] + records_of(lines.drop_first())
        }
    }
}

/// The models of a sequence of decoded records.
pub open spec fn views_of(records: Seq<HexRecord>) -> Seq<RecordView> {
    records.map_values(|r: HexRecord| r@)
}

/// Decode a hex-record text stream into its sequence of typed records.
///
/// Every line yields a record, in the exact line order of the input; no
/// reordering ever occurs. A line that fails to parse yields a `Malformed`
/// record rather than an error. Decoding stops after the first end-of-file
/// record.
pub fn decode(text: &[u8]) -> (records: Vec<HexRecord>)
    ensures
        views_of(records@) == records_of(split_lines(text@)),
{
    let n = text.len();
    let mut records: Vec<HexRecord> = Vec::new();
    let mut done = false;
    let mut i: usize = 0;
    proof {
        assert(text@.subrange(0, n as int) =~= text@);
        assert(views_of(records@) =~= Seq::<RecordView>::empty());
        assert(views_of(records@) + records_of(split_lines(text@))
            =~= records_of(split_lines(text@)));
    }
    while i < n && !done
        invariant
            0 <= i <= n,
            n == text@.len(),
            !done ==> records_of(split_lines(text@)) == views_of(records@)
                + records_of(split_lines(text@.subrange(i as int, n as int))),
            done ==> views_of(records@) == records_of(split_lines(text@)),
        decreases n - i,
    {
        let ghost suffix = text@.subrange(i as int, n as int);
        let mut j: usize = i;
        while j < n && text[j] != 10
            invariant
                i <= j <= n,
                n == text@.len(),
                forall|k: int| i <= k < j ==> text@[k] != 10u8,
            decreases n - j,
        {
            j = j + 1;
        }
        let end = if j > i && text[j - 1] == 13 { j - 1 } else { j };
        let line = &text[i..end];
        proof {
            assert forall|k: int| 0 <= k < j - i implies suffix[k] != 10u8 by {
                assert(text@[i + k] != 10u8);
            }
            lemma_first_newline_is(suffix, j - i);
            assert(strip_cr(text@.subrange(i as int, j as int)) =~= line@);
        }
        let rec = parse_record(line);
        let ghost old_views = views_of(records@);
        let ghost rest = if j < n {
            text@.subrange(j + 1, n as int)
        } else {
            Seq::<u8>::empty()
        };
        proof {
            let lines = split_lines(suffix);
            if j < n {
                assert(suffix.subrange(0, (j - i) as int)
                    =~= text@.subrange(i as int, j as int));
                assert(suffix.subrange((j - i) + 1, suffix.len() as int) =~= rest);
                assert(lines == seq![line@] + split_lines(rest));
            } else {
                assert(suffix =~= text@.subrange(i as int, j as int));
                assert(lines =~= seq![line@]);
            }
            assert(lines[0] == line@);
            assert(lines.drop_first() =~= if j < n {
                split_lines(rest)
            } else {
                Seq::<Seq<u8>>::empty()
            });
            assert(views_of(records@.push(rec)) =~= old_views + seq![rec@]);
        }
        let is_eof = match &rec {
            HexRecord::EndOfFile => true,
            _ => false,
        };
        records.push(rec);
        if is_eof {
            done = true;
            proof {
                assert(records_of(split_lines(suffix)) == seq![rec@]);
                assert(old_views + seq![rec@] =~= views_of(records@));
            }
        } else {
            proof {
                if j < n {
                    assert(records_of(split_lines(suffix))
                        == seq![rec@] + records_of(split_lines(rest)));
                    assert(old_views + (seq![rec@] + records_of(split_lines(rest)))
                        =~= (old_views + seq![rec@]) + records_of(split_lines(rest)));
                } else {
                    assert(records_of(split_lines(suffix))
                        =~= seq![rec@] + records_of(Seq::<Seq<u8>>::empty()));
                    assert(old_views + (seq![rec@] + records_of(Seq::<Seq<u8>>::empty()))
                        =~= (old_views + seq![rec@]) + records_of(Seq::<Seq<u8>>::empty()));
                    assert(text@.subrange(n as int, n as int).len() == 0);
                }
            }
        }
        i = if j < n { j + 1 } else { n };
        proof {
            if !done && j < n {
                assert(text@.subrange(i as int, n as int) == rest);
            }
        }
    }
    proof {
        if !done {
            assert(text@.subrange(i as int, n as int).len() == 0);
            assert(records_of(split_lines(text@.subrange(i as int, n as int)))
                =~= Seq::<RecordView>::empty());
            assert(views_of(records@) + Seq::<RecordView>::empty() =~= views_of(records@));
        }
    }
    records
}

} // verus!
