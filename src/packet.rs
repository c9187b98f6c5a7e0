use vstd::prelude::*;

use crate::buffer::DnsPacketBuffer;
use crate::enums::{QueryClass, QueryType};
use crate::error::DnsPacketError;
use crate::message::{
    empty_header, header_at, question_at, record_at, DnsHeader, DnsQuestion, DnsRecord, RecordView,
};

verus! {

/// A whole message: its header and its four sections, in wire order.
#[derive(Debug, Clone)]
pub struct DnsPacket {
    pub header: DnsHeader,
    pub questions: Vec<DnsQuestion>,
    pub answers: Vec<DnsRecord>,
    pub authorities: Vec<DnsRecord>,
    pub resources: Vec<DnsRecord>,
}

/// What a decoded question holds.
pub type QuestionView = (Seq<char>, QueryType, QueryClass);

/// What a decoded message holds: the header and the four sections.
pub type PacketView = (
    DnsHeader,
    Seq<QuestionView>,
    Seq<RecordView>,
    Seq<RecordView>,
    Seq<RecordView>,
);

impl View for DnsPacket {
    type V = PacketView;

    open spec fn view(&self) -> PacketView {
        (
            self.header,
            self.questions@.map_values(|q: DnsQuestion| q@),
            self.answers@.map_values(|r: DnsRecord| r@),
            self.authorities@.map_values(|r: DnsRecord| r@),
            self.resources@.map_values(|r: DnsRecord| r@),
        )
    }
}

/// Decoding `n` questions one after another from `p`: the questions or the
/// first error, and the cursor afterwards.
pub open spec fn questions_at(buf: Seq<u8>, p: int, n: nat) -> (
    Result<Seq<QuestionView>, DnsPacketError>,
    int,
)
    decreases n,
{
    if n == 0 {
        (Ok(seq![]), p)
    } else {
        let q = question_at(buf, p);
        match q.0 {
            Err(e) => (Err(e), q.1),
            Ok(v) => {
                let rest = questions_at(buf, q.1, (n - 1) as nat);
                match rest.0 {
                    Err(e) => (Err(e), rest.1),
                    Ok(vs) => (Ok(seq![v] + vs), rest.1),
                }
            },
        }
    }
}

/// Decoding `n` resource records one after another from `p`: the records or
/// the first error, and the cursor afterwards.
pub open spec fn records_at(buf: Seq<u8>, p: int, n: nat) -> (
    Result<Seq<RecordView>, DnsPacketError>,
    int,
)
    decreases n,
{
    if n == 0 {
        (Ok(seq![]), p)
    } else {
        let r = record_at(buf, p);
        match r.0 {
            Err(e) => (Err(e), r.1),
            Ok(v) => {
                let rest = records_at(buf, r.1, (n - 1) as nat);
                match rest.0 {
                    Err(e) => (Err(e), rest.1),
                    Ok(vs) => (Ok(seq![v] + vs), rest.1),
                }
            },
        }
    }
}

/// Decoding the message at `p`: the header, then as many questions, answers,
/// authority and additional records as the header counts.
pub open spec fn packet_at(buf: Seq<u8>, p: int) -> Result<PacketView, DnsPacketError> {
    let h = header_at(buf, p);
    match h.0 {
        Err(e) => Err(e),
        Ok(header) => {
            let qs = questions_at(buf, h.1, header.qdcount as nat);
            let an = records_at(buf, qs.1, header.ancount as nat);
            let ns = records_at(buf, an.1, header.nscount as nat);
            let ar = records_at(buf, ns.1, header.arcount as nat);
            match (qs.0, an.0, ns.0, ar.0) {
                (Err(e), _, _, _) => Err(e),
                (Ok(_), Err(e), _, _) => Err(e),
                (Ok(_), Ok(_), Err(e), _) => Err(e),
                (Ok(_), Ok(_), Ok(_), Err(e)) => Err(e),
                (Ok(q), Ok(a), Ok(n), Ok(r)) => Ok((header, q, a, n, r)),
            }
        },
    }
}

/// Decodes `count` questions from the cursor on, in order.
fn decode_questions(buffer: &mut DnsPacketBuffer, count: u16) -> (r: Result<
    Vec<DnsQuestion>,
    DnsPacketError,
>)
    ensures
        final(buffer).buf == old(buffer).buf,
        final(buffer).pos == questions_at(old(buffer).buf@, old(buffer).pos as int, count as nat).1,
        match questions_at(old(buffer).buf@, old(buffer).pos as int, count as nat).0 {
            Ok(vs) => r is Ok && r->Ok_0@.map_values(|q: DnsQuestion| q@) == vs,
            Err(e) => r == Err::<Vec<DnsQuestion>, DnsPacketError>(e),
        },
{
    let ghost buf = buffer.buf@;
    let ghost start = buffer.pos as int;
    let mut out: Vec<DnsQuestion> = Vec::new();
    let mut i: u16 = 0;
    while i < count
        invariant
            buffer.buf == old(buffer).buf,
            buf == old(buffer).buf@,
            start == old(buffer).pos as int,
            i <= count,
            ({
                let rest = questions_at(buf, buffer.pos as int, (count - i) as nat);
                (
                    match rest.0 {
                        Ok(vs) => Ok(out@.map_values(|q: DnsQuestion| q@) + vs),
                        Err(e) => Err(e),
                    },
                    rest.1,
                )
            }) == questions_at(buf, start, count as nat),
        decreases count - i,
    {
        let ghost before = out@.map_values(|q: DnsQuestion| q@);
        let q = DnsQuestion::decode(buffer)?;
        proof {
            let v = q@;
            let rest = questions_at(buf, buffer.pos as int, (count - i - 1) as nat);
            assert(out@.push(q).map_values(|q: DnsQuestion| q@) =~= before.push(v));
            if let Ok(vs) = rest.0 {
                assert(before.push(v) + vs =~= before + (seq![v] + vs));
            }
        }
        out.push(q);
        i = i + 1;
    }
    assert(questions_at(buf, buffer.pos as int, 0) == (
        Ok::<Seq<QuestionView>, DnsPacketError>(seq![]),
        buffer.pos as int,
    ));
    assert(out@.map_values(|q: DnsQuestion| q@) + seq![] =~= out@.map_values(|q: DnsQuestion| q@));
    Ok(out)
}

/// Decodes `count` resource records from the cursor on, in order.
fn decode_records(buffer: &mut DnsPacketBuffer, count: u16) -> (r: Result<
    Vec<DnsRecord>,
    DnsPacketError,
>)
    ensures
        final(buffer).buf == old(buffer).buf,
        final(buffer).pos == records_at(old(buffer).buf@, old(buffer).pos as int, count as nat).1,
        match records_at(old(buffer).buf@, old(buffer).pos as int, count as nat).0 {
            Ok(vs) => r is Ok && r->Ok_0@.map_values(|r: DnsRecord| r@) == vs,
            Err(e) => r == Err::<Vec<DnsRecord>, DnsPacketError>(e),
        },
{
    let ghost buf = buffer.buf@;
    let ghost start = buffer.pos as int;
    let mut out: Vec<DnsRecord> = Vec::new();
    let mut i: u16 = 0;
    while i < count
        invariant
            buffer.buf == old(buffer).buf,
            buf == old(buffer).buf@,
            start == old(buffer).pos as int,
            i <= count,
            ({
                let rest = records_at(buf, buffer.pos as int, (count - i) as nat);
                (
                    match rest.0 {
                        Ok(vs) => Ok(out@.map_values(|r: DnsRecord| r@) + vs),
                        Err(e) => Err(e),
                    },
                    rest.1,
                )
            }) == records_at(buf, start, count as nat),
        decreases count - i,
    {
        let ghost before = out@.map_values(|r: DnsRecord| r@);
        let rec = DnsRecord::decode(buffer)?;
        proof {
            let v = rec@;
            let rest = records_at(buf, buffer.pos as int, (count - i - 1) as nat);
            assert(out@.push(rec).map_values(|r: DnsRecord| r@) =~= before.push(v));
            if let Ok(vs) = rest.0 {
                assert(before.push(v) + vs =~= before + (seq![v] + vs));
            }
        }
        out.push(rec);
        i = i + 1;
    }
    assert(records_at(buf, buffer.pos as int, 0) == (
        Ok::<Seq<RecordView>, DnsPacketError>(seq![]),
        buffer.pos as int,
    ));
    assert(out@.map_values(|r: DnsRecord| r@) + seq![] =~= out@.map_values(|r: DnsRecord| r@));
    Ok(out)
}
impl DnsPacket {
    /// Decodes the message held by `buffer`, starting at its cursor (the
    /// first byte of a fresh buffer): the header, then as many entries of
    /// each section as the header counts.
    pub fn from_buffer(buffer: DnsPacketBuffer) -> (r: Result<DnsPacket, DnsPacketError>)
        ensures
            match packet_at(buffer.buf@, buffer.pos as int) {
                Ok(v) => r is Ok && r->Ok_0@ == v,
                Err(e) => r == Err::<DnsPacket, DnsPacketError>(e),
            },
            r matches Ok(p) ==> p.questions.len() == p.header.qdcount && p.answers.len()
                == p.header.ancount && p.authorities.len() == p.header.nscount
                && p.resources.len() == p.header.arcount,
    {
        let ghost start = buffer.pos as int;
        let mut buffer = buffer;
        let header = DnsHeader::decode(&mut buffer)?;
        let questions = decode_questions(&mut buffer, header.qdcount)?;
        let answers = decode_records(&mut buffer, header.ancount)?;
        let authorities = decode_records(&mut buffer, header.nscount)?;
        let resources = decode_records(&mut buffer, header.arcount)?;
        let packet = DnsPacket { header, questions, answers, authorities, resources };
        proof {
            lemma_section_counts(buffer.buf@, start);
        }
        Ok(packet)
    }
}

impl Default for DnsPacket {
    /// An empty message: a default header and no entries.
    fn default() -> (r: Self)
        ensures
            r.header == empty_header(),
            r.questions@.len() == 0,
            r.answers@.len() == 0,
            r.authorities@.len() == 0,
            r.resources@.len() == 0,
    {
        DnsPacket {
            header: DnsHeader::default(),
            questions: Vec::new(),
            answers: Vec::new(),
            authorities: Vec::new(),
            resources: Vec::new(),
        }
    }
}

proof fn lemma_questions_len(buf: Seq<u8>, p: int, n: nat)
    ensures
        questions_at(buf, p, n).0 matches Ok(vs) ==> vs.len() == n,
    decreases n,
{
    if n > 0 {
        let q = question_at(buf, p);
        if q.0 is Ok {
            lemma_questions_len(buf, q.1, (n - 1) as nat);
        }
    }
}

proof fn lemma_records_len(buf: Seq<u8>, p: int, n: nat)
    ensures
        records_at(buf, p, n).0 matches Ok(vs) ==> vs.len() == n,
    decreases n,
{
    if n > 0 {
        let r = record_at(buf, p);
        if r.0 is Ok {
            lemma_records_len(buf, r.1, (n - 1) as nat);
        }
    }
}

/// A decoded message holds exactly as many entries in each section as its
/// header counts.
pub proof fn lemma_section_counts(buf: Seq<u8>, p: int)
    ensures
        packet_at(buf, p) matches Ok(v) ==> v.1.len() == v.0.qdcount && v.2.len() == v.0.ancount
            && v.3.len() == v.0.nscount && v.4.len() == v.0.arcount,
{
    let h = header_at(buf, p);
    if let Ok(header) = h.0 {
        let qs = questions_at(buf, h.1, header.qdcount as nat);
        let an = records_at(buf, qs.1, header.ancount as nat);
        let ns = records_at(buf, an.1, header.nscount as nat);
        lemma_questions_len(buf, h.1, header.qdcount as nat);
        lemma_records_len(buf, qs.1, header.ancount as nat);
        lemma_records_len(buf, an.1, header.nscount as nat);
        lemma_records_len(buf, ns.1, header.arcount as nat);
    }
}

} // verus!
