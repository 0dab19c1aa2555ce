//! The table decoder and the status-record name extractor.
//!
//! [`get_netstat`] turns the lines of one protocol's socket table into
//! connection records: the first line is the header and is discarded;
//! every following line must tokenize into at least seven fields, which
//! map positionally onto a record, or the whole read is rejected as
//! malformed. [`get_processname`] extracts the declared name from the
//! lines of a per-process status record.

use crate::record::Netstat;
use crate::record::NetstatError;
use crate::record::NetstatView;
use crate::text::spec_tokens;
use crate::text::tokenize;
use vstd::prelude::*;

verus! {

/// The record a data row stands for: its first seven fields, in table
/// order (meaningful only when the row has at least seven).
pub open spec fn row_record(line: Seq<char>) -> NetstatView {
    let t = spec_tokens(line);
    NetstatView {
        slot: t[0],
        recv_q: t[1],
        send_q: t[2],
        local_addr: t[3],
        foreign_addr: t[4],
        state: t[5],
        pid: t[6],
    }
}

/// The decoding of a whole table: the header line is discarded, every
/// data row must carry at least seven fields, and the records come out
/// in the table's own order. A single short row rejects the whole read.
pub open spec fn spec_decode(lines: Seq<Seq<char>>) -> Result<Seq<NetstatView>, NetstatError> {
    if lines.len() == 0 {
        Ok(Seq::empty())
    } else {
        let rows = lines.skip(1);
        if forall|i: int| 0 <= i < rows.len() ==> spec_tokens(rows[i]).len() >= 7 {
            Ok(rows.map_values(|line: Seq<char>| row_record(line)))
        } else {
            Err(NetstatError::MalformedRow)
        }
    }
}

/// Decodes the lines of one protocol's socket table into connection
/// records. The first line (the column header) is discarded; each
/// following line is tokenized by whitespace and its first seven fields
/// become a record, extra trailing fields being ignored. Fails with
/// `MalformedRow`, producing no partial result, as soon as any data row
/// has fewer than seven fields.
pub fn get_netstat(lines: &Vec<String>) -> (r: Result<Vec<Netstat>, NetstatError>)
    ensures
        match spec_decode(lines@.map_values(|l: String| l@)) {
            Ok(rows) => r matches Ok(v) && v@.map_values(|n: Netstat| n@) == rows,
            Err(e) => r == Err::<Vec<Netstat>, NetstatError>(e),
        },
{
    let ghost ls = lines@.map_values(|l: String| l@);
    let mut out: Vec<Netstat> = Vec::new();
    if lines.len() == 0 {
        assert(out@.map_values(|n: Netstat| n@) =~= Seq::<NetstatView>::empty());
        return Ok(out);
    }
    let mut i: usize = 1;
    while i < lines.len()
        invariant
            1 <= i <= lines.len(),
            ls == lines@.map_values(|l: String| l@),
            forall|m: int| 1 <= m < i ==> spec_tokens(ls[m]).len() >= 7,
            out@.map_values(|n: Netstat| n@) == ls.subrange(1, i as int).map_values(
                |line: Seq<char>| row_record(line),
            ),
        decreases lines.len() - i,
    {
        let toks = tokenize(lines[i].as_str());
        if toks.len() < 7 {
            assert(ls.skip(1)[i - 1] == ls[i as int]);
            return Err(NetstatError::MalformedRow);
        }
        let rec = Netstat {
            slot: toks[0].clone(),
            recv_q: toks[1].clone(),
            send_q: toks[2].clone(),
            local_addr: toks[3].clone(),
            foreign_addr: toks[4].clone(),
            state: toks[5].clone(),
            pid: toks[6].clone(),
        };
        proof {
            assert(rec@ =~= row_record(ls[i as int]));
        }
        let ghost old_map = out@.map_values(|n: Netstat| n@);
        out.push(rec);
        proof {
            assert(ls.subrange(1, i as int + 1) =~= ls.subrange(1, i as int).push(ls[i as int]));
            assert(ls.subrange(1, i as int + 1).map_values(|line: Seq<char>| row_record(line))
                =~= ls.subrange(1, i as int).map_values(|line: Seq<char>| row_record(line)).push(
                row_record(ls[i as int]),
            ));
            assert(out@.map_values(|n: Netstat| n@) =~= old_map.push(rec@));
        }
        i = i + 1;
    }
    proof {
        assert(ls.subrange(1, i as int) =~= ls.skip(1));
        assert(forall|m: int| 0 <= m < ls.skip(1).len() ==> ls.skip(1)[m] == ls[m + 1]);
    }
    Ok(out)
}

/// The key that introduces the name field of a process status record.
pub open spec fn name_key() -> Seq<char> {
    seq!['N', 'a', 'm', 'e', ':']
}

/// The declared process name in the lines of a status record: the
/// second field of the first line whose first field is `Name:`, or the
/// empty text when no line carries one.
pub open spec fn spec_processname(lines: Seq<Seq<char>>) -> Seq<char>
    decreases lines.len(),
{
    if lines.len() == 0 {
        Seq::empty()
    } else {
        let toks = spec_tokens(lines[0]);
        if toks.len() >= 2 && toks[0] == name_key() {
            toks[1]
        } else {
            spec_processname(lines.skip(1))
        }
    }
}

/// Extracts the declared process name from the lines of a per-process
/// status record: the first whitespace-delimited value of the first
/// `Name:` line, or the empty string when there is none.
pub fn get_processname(lines: &Vec<String>) -> (r: String)
    ensures
        r@ == spec_processname(lines@.map_values(|l: String| l@)),
{
    let ghost ls = lines@.map_values(|l: String| l@);
    proof {
        reveal_strlit("Name:");
    }
    let key: String = "Name:".to_owned();
    assert(key@ =~= name_key());
    let mut i: usize = 0;
    proof {
        assert(ls.skip(0) =~= ls);
    }
    while i < lines.len()
        invariant
            i <= lines.len(),
            ls == lines@.map_values(|l: String| l@),
            key@ == name_key(),
            spec_processname(ls) == spec_processname(ls.skip(i as int)),
        decreases lines.len() - i,
    {
        let toks = tokenize(lines[i].as_str());
        assert(ls.skip(i as int)[0] == ls[i as int]);
        if toks.len() >= 2 && toks[0].eq(&key) {
            return toks[1].clone();
        }
        proof {
            assert(ls.skip(i as int).skip(1) =~= ls.skip(i as int + 1));
        }
        i = i + 1;
    }
    proof {
        assert(ls.skip(i as int) =~= Seq::<Seq<char>>::empty());
    }
    String::new()
}

} // verus!
