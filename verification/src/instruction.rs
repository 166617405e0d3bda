use vstd::prelude::*;
use crate::codec::{
    bytes_enc, i64_le, options_enc, rd_bytes, rd_i64, rd_options, rd_u32, u32_le, push_bytes_enc,
    push_i64_le, push_options, push_u32_le, read_bytes, read_i64, read_options, read_u32,
    lemma_mid, lemma_rd_bytes_at, lemma_rd_i64_at, lemma_rd_options_at, lemma_rd_u32_at,
};

verus! {

/// An instruction to the voting program, as carried in the transaction
/// envelope: a one-byte discriminant selecting the operation, followed by
/// its length-prefixed payload fields.
#[derive(Debug)]
pub enum VotingInstruction {
    CreatePoll { title: Vec<u8>, options: Vec<Vec<u8>>, start_time: i64, end_time: i64 },
    CastVote { option_index: u32 },
    ClosePoll {},
}

/// The mathematical model of an instruction.
#[verifier::ext_equal]
pub ghost enum InstructionView {
    CreatePoll { title: Seq<u8>, options: Seq<Seq<u8>>, start_time: i64, end_time: i64 },
    CastVote { option_index: u32 },
    ClosePoll,
}

impl View for VotingInstruction {
    type V = InstructionView;

    open spec fn view(&self) -> InstructionView {
        match self {
            VotingInstruction::CreatePoll { title, options, start_time, end_time } =>
                InstructionView::CreatePoll {
                title: title@,
                options: options.deep_view(),
                start_time: *start_time,
                end_time: *end_time,
            },
            VotingInstruction::CastVote { option_index } => InstructionView::CastVote {
                option_index: *option_index,
            },
            VotingInstruction::ClosePoll {  } => InstructionView::ClosePoll,
        }
    }
}

impl InstructionView {
    /// Bounds under which the payload fits its length prefixes.
    pub open spec fn encodable(self) -> bool {
        match self {
            InstructionView::CreatePoll { title, options, .. } => {
                &&& title.len() <= u32::MAX
                &&& options.len() <= u32::MAX
                &&& forall|i: int| 0 <= i < options.len() ==> options[i].len() <= u32::MAX
            },
            _ => true,
        }
    }
}

/// The byte image of an instruction.
pub open spec fn spec_encode_instruction(ix: InstructionView) -> Seq<u8> {
    match ix {
        InstructionView::CreatePoll { title, options, start_time, end_time } => seq![0u8]
            + bytes_enc(title) + u32_le(options.len() as u32) + options_enc(options) + i64_le(
            start_time,
        ) + i64_le(end_time),
        InstructionView::CastVote { option_index } => seq![1u8] + u32_le(option_index),
        InstructionView::ClosePoll => seq![2u8],
    }
}

/// The instruction an envelope holds, if the whole buffer is exactly one
/// well-shaped instruction; unlike a stored record, an instruction must
/// consume its buffer to the end.
pub open spec fn spec_decode_instruction(d: Seq<u8>) -> Option<InstructionView> {
    if d.len() < 1 {
        None
    } else if d[0] == 0u8 {
        match rd_bytes(d, 1) {
            Some((title, i2)) => match rd_u32(d, i2) {
                Some((nopt, i3)) => match rd_options(d, i3, nopt as nat) {
                    Some((options, i4)) => match rd_i64(d, i4) {
                        Some((start_time, i5)) => match rd_i64(d, i5) {
                            Some((end_time, i6)) => if i6 == d.len() {
                                Some(
                                    InstructionView::CreatePoll {
                                        title,
                                        options,
                                        start_time,
                                        end_time,
                                    },
                                )
                            } else {
                                None
                            },
                            None => None,
                        },
                        None => None,
                    },
                    None => None,
                },
                None => None,
            },
            None => None,
        }
    } else if d[0] == 1u8 {
        match rd_u32(d, 1) {
            Some((option_index, i2)) => if i2 == d.len() {
                Some(InstructionView::CastVote { option_index })
            } else {
                None
            },
            None => None,
        }
    } else if d[0] == 2u8 {
        if d.len() == 1 {
            Some(InstructionView::ClosePoll)
        } else {
            None
        }
    } else {
        None
    }
}

/// The byte image of an instruction envelope, ready to hand to the ledger.
pub fn encode_instruction(ix: &VotingInstruction) -> (r: Vec<u8>)
    requires
        ix@.encodable(),
    ensures
        r@ == spec_encode_instruction(ix@),
{
    match ix {
        VotingInstruction::CreatePoll { title, options, start_time, end_time } => {
            let mut out: Vec<u8> = Vec::new();
            out.push(0u8);
            proof {
                assert(out@ =~= seq![0u8]);
            }
            push_bytes_enc(&mut out, title);
            push_u32_le(&mut out, options.len() as u32);
            push_options(&mut out, options);
            push_i64_le(&mut out, *start_time);
            push_i64_le(&mut out, *end_time);
            proof {
                assert(out@ =~= spec_encode_instruction(ix@));
            }
            out
        },
        VotingInstruction::CastVote { option_index } => {
            let mut out: Vec<u8> = Vec::new();
            out.push(1u8);
            proof {
                assert(out@ =~= seq![1u8]);
            }
            push_u32_le(&mut out, *option_index);
            proof {
                assert(out@ =~= spec_encode_instruction(ix@));
            }
            out
        },
        VotingInstruction::ClosePoll {  } => {
            let mut out: Vec<u8> = Vec::new();
            out.push(2u8);
            proof {
                assert(out@ =~= spec_encode_instruction(ix@));
            }
            out
        },
    }
}

/// Decode an instruction envelope; fails exactly where the buffer is not
/// one whole well-shaped instruction.
pub fn parse_instruction(d: &Vec<u8>) -> (r: Option<VotingInstruction>)
    ensures
        match r {
            Some(ix) => spec_decode_instruction(d@) == Some(ix@),
            None => spec_decode_instruction(d@) is None,
        },
{
    if d.len() < 1 {
        return None;
    }
    let tag = d[0];
    if tag == 0 {
        match read_bytes(d, 1) {
            Some((title, i2)) => match read_u32(d, i2) {
                Some((nopt, i3)) => match read_options(d, i3, nopt) {
                    Some((options, i4)) => match read_i64(d, i4) {
                        Some((start_time, i5)) => match read_i64(d, i5) {
                            Some((end_time, i6)) => if i6 == d.len() {
                                Some(
                                    VotingInstruction::CreatePoll {
                                        title,
                                        options,
                                        start_time,
                                        end_time,
                                    },
                                )
                            } else {
                                None
                            },
                            None => None,
                        },
                        None => None,
                    },
                    None => None,
                },
                None => None,
            },
            None => None,
        }
    } else if tag == 1 {
        match read_u32(d, 1) {
            Some((option_index, i2)) => if i2 == d.len() {
                Some(VotingInstruction::CastVote { option_index })
            } else {
                None
            },
            None => None,
        }
    } else if tag == 2 {
        if d.len() == 1 {
            Some(VotingInstruction::ClosePoll {  })
        } else {
            None
        }
    } else {
        None
    }
}

/// An encoded instruction envelope decodes to the instruction itself: what
/// a client builds is exactly what the dispatcher accepts.
#[verifier::rlimit(60)]
pub proof fn lemma_instruction_roundtrip(ix: InstructionView)
    requires
        ix.encodable(),
    ensures
        spec_decode_instruction(spec_encode_instruction(ix)) == Some(ix),
{
    let d = spec_encode_instruction(ix);
    match ix {
        InstructionView::CreatePoll { title, options, start_time, end_time } => {
            let e1 = seq![0u8];
            let e2 = bytes_enc(title);
            let e3 = u32_le(options.len() as u32);
            let e4 = options_enc(options);
            let e5 = i64_le(start_time);
            let e6 = i64_le(end_time);
            let pre2 = e1 + e2;
            let pre3 = pre2 + e3;
            let pre4 = pre3 + e4;
            let pre5 = pre4 + e5;
            let pre6 = pre5 + e6;
            assert(d == pre6);
            let empty = Seq::<u8>::empty();
            assert(pre6 + empty =~= pre6);
            lemma_mid(pre5, e6, empty, d);
            assert(pre5 + e6 + empty =~= pre5 + (e6 + empty));
            let s6 = e6 + empty;
            lemma_mid(pre4, e5, s6, d);
            assert(pre4 + e5 + s6 =~= pre4 + (e5 + s6));
            let s5 = e5 + s6;
            lemma_mid(pre3, e4, s5, d);
            assert(pre3 + e4 + s5 =~= pre3 + (e4 + s5));
            let s4 = e4 + s5;
            lemma_mid(pre2, e3, s4, d);
            assert(pre2 + e3 + s4 =~= pre2 + (e3 + s4));
            let s3 = e3 + s4;
            lemma_mid(e1, e2, s3, d);
            let i1 = 1int;
            let i2 = i1 + e2.len();
            let i3 = i2 + 4;
            let i4 = i3 + e4.len();
            let i5 = i4 + 8;
            let i6 = i5 + 8;
            assert(e2.len() == 4 + title.len());
            assert(pre2.len() == i2 && pre3.len() == i3 && pre4.len() == i4 && pre5.len() == i5
                && pre6.len() == i6);
            assert(d[0] == 0u8);
            lemma_rd_bytes_at(d, i1, title);
            lemma_rd_u32_at(d, i2, options.len() as u32);
            lemma_rd_options_at(d, i3, options);
            lemma_rd_i64_at(d, i4, start_time);
            lemma_rd_i64_at(d, i5, end_time);
            assert((options.len() as u32) as nat == options.len());
            assert(i6 == d.len());
        },
        InstructionView::CastVote { option_index } => {
            assert(d[0] == 1u8);
            assert(d.subrange(1, 5) =~= u32_le(option_index));
            lemma_rd_u32_at(d, 1, option_index);
        },
        InstructionView::ClosePoll => {
            assert(d[0] == 2u8);
        },
    }
}

} // verus!
