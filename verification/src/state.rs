use vstd::prelude::*;

verus! {

/// Longest title a poll may carry, in bytes.
pub const MAX_POLL_TITLE_LENGTH: usize = 100;

/// Longest single option a poll may carry, in bytes.
pub const MAX_POLL_OPTION_LENGTH: usize = 50;

/// Largest number of options a poll may carry.
pub const MAX_POLL_OPTIONS: usize = 10;

/// Size of an identity or derived address, in bytes.
pub const IDENTITY_LENGTH: usize = 32;

/// Fixed allocation size of a poll record: flag, length-prefixed title at
/// its maximum, length-prefixed options at their maxima, authority, the two
/// timestamps, and the length-prefixed counters.
pub const POLL_ACCOUNT_SIZE: usize = 1 + 4 + MAX_POLL_TITLE_LENGTH + 4 + MAX_POLL_OPTIONS
    * (4 + MAX_POLL_OPTION_LENGTH) + IDENTITY_LENGTH + 8 + 8 + 4 + MAX_POLL_OPTIONS * 4;

/// Fixed allocation size of a vote record: flag, voter, poll address and
/// option index.
pub const VOTE_ACCOUNT_SIZE: usize = 1 + IDENTITY_LENGTH + IDENTITY_LENGTH + 4;

/// A fixed 32-byte public identifier: an authorizing party (creator, voter,
/// authority), a program id, or a derived storage address.
#[derive(Debug)]
pub struct Identity {
    pub bytes: Vec<u8>,
}

impl View for Identity {
    type V = Seq<u8>;

    open spec fn view(&self) -> Seq<u8> {
        self.bytes@
    }
}

impl Identity {
    /// An identity is exactly 32 bytes.
    pub open spec fn wf(self) -> bool {
        self@.len() == IDENTITY_LENGTH
    }

    pub fn new(bytes: Vec<u8>) -> (r: Identity)
        requires
            bytes@.len() == IDENTITY_LENGTH,
        ensures
            r@ == bytes@,
            r.wf(),
    {
        Identity { bytes }
    }

    /// Byte-for-byte equality of two identities.
    pub fn same_as(&self, other: &Identity) -> (r: bool)
        ensures
            r == (self@ == other@),
    {
        let r = bytes_eq(&self.bytes, &other.bytes);
        r
    }

    /// A fresh identity holding the same 32 bytes.
    pub fn duplicate(&self) -> (r: Identity)
        ensures
            r@ == self@,
    {
        Identity { bytes: copy_bytes(&self.bytes) }
    }
}

/// Byte-for-byte equality of two byte vectors.
pub fn bytes_eq(a: &Vec<u8>, b: &Vec<u8>) -> (r: bool)
    ensures
        r == (a@ == b@),
{
    if a.len() != b.len() {
        return false;
    }
    let mut i: usize = 0;
    while i < a.len()
        invariant
            i <= a.len(),
            a@.len() == b@.len(),
            forall|j: int| 0 <= j < i ==> a@[j] == b@[j],
        decreases a@.len() - i,
    {
        if a[i] != b[i] {
            return false;
        }
        i += 1;
    }
    proof {
        assert(a@ =~= b@);
    }
    true
}

/// A fresh byte vector holding the same bytes.
pub fn copy_bytes(a: &Vec<u8>) -> (r: Vec<u8>)
    ensures
        r@ == a@,
{
    let mut r: Vec<u8> = Vec::new();
    let mut i: usize = 0;
    while i < a.len()
        invariant
            i <= a.len(),
            r@ == a@.subrange(0, i as int),
        decreases a@.len() - i,
    {
        r.push(a[i]);
        proof {
            assert(r@ =~= a@.subrange(0, i + 1));
        }
        i += 1;
    }
    proof {
        assert(a@.subrange(0, a@.len() as int) =~= a@);
    }
    r
}

/// The mathematical model of a poll record.
#[verifier::ext_equal]
pub ghost struct PollView {
    pub is_initialized: bool,
    pub title: Seq<u8>,
    pub options: Seq<Seq<u8>>,
    pub authority: Seq<u8>,
    pub start_time: i64,
    pub end_time: i64,
    pub vote_counts: Seq<u32>,
}

impl PollView {
    /// The invariant of every poll this program creates: a 32-byte
    /// authority, one counter per option, all content within its bounds,
    /// and a non-empty time window.
    pub open spec fn wf(self) -> bool {
        &&& self.authority.len() == IDENTITY_LENGTH
        &&& self.vote_counts.len() == self.options.len()
        &&& self.title.len() <= MAX_POLL_TITLE_LENGTH
        &&& 1 <= self.options.len() <= MAX_POLL_OPTIONS
        &&& forall|i: int|
            0 <= i < self.options.len() ==> self.options[i].len() <= MAX_POLL_OPTION_LENGTH
        &&& self.start_time < self.end_time
    }

    /// Loose bounds under which the record fits the codec's length
    /// prefixes; every well-formed poll satisfies them, and so does every
    /// decoded one.
    pub open spec fn encodable(self) -> bool {
        &&& self.authority.len() == IDENTITY_LENGTH
        &&& self.title.len() <= u32::MAX
        &&& self.options.len() <= u32::MAX
        &&& forall|i: int| 0 <= i < self.options.len() ==> self.options[i].len() <= u32::MAX
        &&& self.vote_counts.len() <= u32::MAX
    }

    /// Whether the poll accepts votes at the given ledger time.
    pub open spec fn active_at(self, current_time: i64) -> bool {
        self.start_time <= current_time <= self.end_time
    }
}

/// A poll: its immutable content, its authority, its voting window, and one
/// monotonically non-decreasing counter per option.
#[derive(Debug)]
pub struct Poll {
    pub is_initialized: bool,
    pub title: Vec<u8>,
    pub options: Vec<Vec<u8>>,
    pub authority: Identity,
    pub start_time: i64,
    pub end_time: i64,
    pub vote_counts: Vec<u32>,
}

impl View for Poll {
    type V = PollView;

    open spec fn view(&self) -> PollView {
        PollView {
            is_initialized: self.is_initialized,
            title: self.title@,
            options: self.options.deep_view(),
            authority: self.authority@,
            start_time: self.start_time,
            end_time: self.end_time,
            vote_counts: self.vote_counts@,
        }
    }
}

/// The counters a poll starts with: one zero per option.
pub open spec fn zero_counts(n: nat) -> Seq<u32> {
    Seq::new(n, |i: int| 0u32)
}

impl Poll {
    /// A freshly created, initialized poll with every counter at zero.
    pub fn new(
        title: Vec<u8>,
        options: Vec<Vec<u8>>,
        authority: Identity,
        start_time: i64,
        end_time: i64,
    ) -> (r: Poll)
        ensures
            r@ == (PollView {
                is_initialized: true,
                title: title@,
                options: options.deep_view(),
                authority: authority@,
                start_time,
                end_time,
                vote_counts: zero_counts(options.deep_view().len()),
            }),
    {
        let n = options.len();
        let mut vote_counts: Vec<u32> = Vec::new();
        while vote_counts.len() < n
            invariant
                vote_counts@.len() <= n,
                forall|i: int| 0 <= i < vote_counts@.len() ==> vote_counts@[i] == 0u32,
            decreases n - vote_counts@.len(),
        {
            vote_counts.push(0u32);
        }
        proof {
            assert(vote_counts@ =~= zero_counts(options.deep_view().len()));
        }
        let r = Poll { is_initialized: true, title, options, authority, start_time, end_time, vote_counts };
        proof {
            assert(r@ =~= (PollView {
                is_initialized: true,
                title: r.title@,
                options: r.options.deep_view(),
                authority: r.authority@,
                start_time: r.start_time,
                end_time: r.end_time,
                vote_counts: zero_counts(r.options.deep_view().len()),
            }));
        }
        r
    }

    pub fn is_initialized(&self) -> (r: bool)
        ensures
            r == self@.is_initialized,
    {
        self.is_initialized
    }

    /// Whether the poll accepts votes at the given ledger time.
    pub fn is_active(&self, current_time: i64) -> (r: bool)
        ensures
            r == self@.active_at(current_time),
    {
        current_time >= self.start_time && current_time <= self.end_time
    }

    /// Count one vote for the given option; rejects an index outside the
    /// option list and leaves the poll unchanged in that case.
    pub fn cast_vote(&mut self, option_index: usize) -> (r: Result<(), &'static str>)
        requires
            option_index < old(self)@.options.len() ==> old(self)@.vote_counts[
                option_index as int] < u32::MAX,
            old(self)@.vote_counts.len() == old(self)@.options.len(),
        ensures
            match r {
                Ok(()) => {
                    &&& option_index < old(self)@.options.len()
                    &&& final(self)@ == (PollView {
                        vote_counts: old(self)@.vote_counts.update(
                            option_index as int,
                            (old(self)@.vote_counts[option_index as int] + 1) as u32,
                        ),
                        ..old(self)@
                    })
                },
                Err(_) => {
                    &&& option_index >= old(self)@.options.len()
                    &&& final(self)@ == old(self)@
                },
            },
    {
        if option_index >= self.options.len() {
            return Err("Invalid option index");
        }
        let c = self.vote_counts[option_index];
        self.vote_counts.set(option_index, c + 1);
        proof {
            assert(self@ =~= (PollView {
                vote_counts: old(self)@.vote_counts.update(
                    option_index as int,
                    (old(self)@.vote_counts[option_index as int] + 1) as u32,
                ),
                ..old(self)@
            }));
        }
        Ok(())
    }
}

/// The mathematical model of a vote record.
#[verifier::ext_equal]
pub ghost struct VoteView {
    pub is_initialized: bool,
    pub voter: Seq<u8>,
    pub poll: Seq<u8>,
    pub option_index: u32,
}

impl VoteView {
    /// The invariant of every vote this program creates.
    pub open spec fn wf(self) -> bool {
        &&& self.voter.len() == IDENTITY_LENGTH
        &&& self.poll.len() == IDENTITY_LENGTH
    }
}

/// A vote: who voted, on which poll, and for which option. Created at most
/// once per (voter, poll) pair and never mutated.
#[derive(Debug)]
pub struct Vote {
    pub is_initialized: bool,
    pub voter: Identity,
    pub poll: Identity,
    pub option_index: u32,
}

impl View for Vote {
    type V = VoteView;

    open spec fn view(&self) -> VoteView {
        VoteView {
            is_initialized: self.is_initialized,
            voter: self.voter@,
            poll: self.poll@,
            option_index: self.option_index,
        }
    }
}

impl Vote {
    /// A freshly created, initialized vote record.
    pub fn new(voter: Identity, poll: Identity, option_index: u32) -> (r: Vote)
        ensures
            r@ == (VoteView { is_initialized: true, voter: voter@, poll: poll@, option_index }),
    {
        Vote { is_initialized: true, voter, poll, option_index }
    }

    pub fn is_initialized(&self) -> (r: bool)
        ensures
            r == self@.is_initialized,
    {
        self.is_initialized
    }
}

} // verus!
