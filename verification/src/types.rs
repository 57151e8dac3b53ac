use vstd::prelude::*;

verus! {

broadcast use vstd::std_specs::vec::group_vec_axioms;

/// Whether two byte strings are equal.
pub fn bytes_equal(a: &Vec<u8>, b: &Vec<u8>) -> (r: bool)
    ensures
        r == (a@ == b@),
{
    let r = a == b;
    assert(r ==> a@ =~= b@);
    r
}

/// A copy of a byte string.
pub fn copy_bytes(a: &Vec<u8>) -> (r: Vec<u8>)
    ensures
        r@ == a@,
{
    let r = a.clone();
    assert(r@ =~= a@);
    r
}

/// A copy of a list of byte strings.
pub fn copy_byte_strings(a: &Vec<Vec<u8>>) -> (r: Vec<Vec<u8>>)
    ensures
        byte_strings_view(r@) == byte_strings_view(a@),
{
    let mut r: Vec<Vec<u8>> = Vec::new();
    let mut i: usize = 0;
    while i < a.len()
        invariant
            i <= a.len(),
            r@.len() == i,
            forall|j: int| 0 <= j < i ==> (#[trigger] r@[j])@ == a@[j]@,
        decreases a.len() - i,
    {
        r.push(copy_bytes(&a[i]));
        i = i + 1;
    }
    assert(byte_strings_view(r@) =~= byte_strings_view(a@));
    r
}

/// The contents of a list of byte strings.
pub open spec fn byte_strings_view(s: Seq<Vec<u8>>) -> Seq<Seq<u8>> {
    s.map_values(|b: Vec<u8>| b@)
}

/// The name of a quest: a short string, held as its bytes.
pub struct Symbol {
    pub bytes: Vec<u8>,
}

impl View for Symbol {
    type V = Seq<u8>;

    open spec fn view(&self) -> Seq<u8> {
        self.bytes@
    }
}

impl Symbol {
    /// The symbol with the given bytes.
    pub fn new(bytes: Vec<u8>) -> (s: Symbol)
        ensures
            s@ == bytes@,
    {
        Symbol { bytes }
    }

    /// The number of bytes of the symbol.
    pub fn len(&self) -> (n: usize)
        ensures
            n == self@.len(),
    {
        self.bytes.len()
    }

    /// Whether two symbols are the same.
    pub fn same_as(&self, other: &Symbol) -> (r: bool)
        ensures
            r == (self@ == other@),
    {
        bytes_equal(&self.bytes, &other.bytes)
    }

    /// A copy of the symbol.
    pub fn duplicate(&self) -> (r: Symbol)
        ensures
            r@ == self@,
    {
        Symbol { bytes: copy_bytes(&self.bytes) }
    }
}

/// An account or contract address, held as the bytes of its encoding.
pub struct Address {
    pub bytes: Vec<u8>,
}

impl View for Address {
    type V = Seq<u8>;

    open spec fn view(&self) -> Seq<u8> {
        self.bytes@
    }
}

impl Address {
    /// The address with the given bytes.
    pub fn new(bytes: Vec<u8>) -> (a: Address)
        ensures
            a@ == bytes@,
    {
        Address { bytes }
    }

    /// Whether two addresses are the same.
    pub fn same_as(&self, other: &Address) -> (r: bool)
        ensures
            r == (self@ == other@),
    {
        bytes_equal(&self.bytes, &other.bytes)
    }

    /// A copy of the address.
    pub fn duplicate(&self) -> (r: Address)
        ensures
            r@ == self@,
    {
        Address { bytes: copy_bytes(&self.bytes) }
    }
}

/// The life cycle of a quest.
#[derive(Copy, Clone, Debug, PartialEq, Eq, Structural)]
pub enum QuestStatus {
    Active,
    Paused,
    Completed,
    Expired,
}

/// The life cycle of a submission.
#[derive(Copy, Clone, Debug, PartialEq, Eq, Structural)]
pub enum SubmissionStatus {
    Pending,
    Approved,
    Rejected,
    Paid,
}

/// A registered quest.
pub struct Quest {
    pub id: Symbol,
    pub creator: Address,
    pub reward_asset: Address,
    pub reward_amount: i128,
    pub verifier: Address,
    pub deadline: u64,
    pub status: QuestStatus,
    pub total_claims: u32,
}

/// What a quest holds, as plain values.
pub struct QuestView {
    pub id: Seq<u8>,
    pub creator: Seq<u8>,
    pub reward_asset: Seq<u8>,
    pub reward_amount: i128,
    pub verifier: Seq<u8>,
    pub deadline: u64,
    pub status: QuestStatus,
    pub total_claims: u32,
}

impl View for Quest {
    type V = QuestView;

    open spec fn view(&self) -> QuestView {
        QuestView {
            id: self.id@,
            creator: self.creator@,
            reward_asset: self.reward_asset@,
            reward_amount: self.reward_amount,
            verifier: self.verifier@,
            deadline: self.deadline,
            status: self.status,
            total_claims: self.total_claims,
        }
    }
}

impl Quest {
    /// A copy of the quest.
    pub fn duplicate(&self) -> (r: Quest)
        ensures
            r@ == self@,
    {
        Quest {
            id: self.id.duplicate(),
            creator: self.creator.duplicate(),
            reward_asset: self.reward_asset.duplicate(),
            reward_amount: self.reward_amount,
            verifier: self.verifier.duplicate(),
            deadline: self.deadline,
            status: self.status,
            total_claims: self.total_claims,
        }
    }
}

/// The contents of a list of quests.
pub open spec fn quests_view(s: Seq<Quest>) -> Seq<QuestView> {
    s.map_values(|q: Quest| q@)
}

/// A proof submitted by a user for a quest.
pub struct Submission {
    pub quest_id: Symbol,
    pub submitter: Address,
    pub proof_hash: [u8; 32],
    pub status: SubmissionStatus,
    pub timestamp: u64,
}

/// What a submission holds, as plain values.
pub struct SubmissionView {
    pub quest_id: Seq<u8>,
    pub submitter: Seq<u8>,
    pub proof_hash: Seq<u8>,
    pub status: SubmissionStatus,
    pub timestamp: u64,
}

impl View for Submission {
    type V = SubmissionView;

    open spec fn view(&self) -> SubmissionView {
        SubmissionView {
            quest_id: self.quest_id@,
            submitter: self.submitter@,
            proof_hash: self.proof_hash@,
            status: self.status,
            timestamp: self.timestamp,
        }
    }
}

impl Submission {
    /// A copy of the submission.
    pub fn duplicate(&self) -> (r: Submission)
        ensures
            r@ == self@,
    {
        Submission {
            quest_id: self.quest_id.duplicate(),
            submitter: self.submitter.duplicate(),
            proof_hash: self.proof_hash,
            status: self.status,
            timestamp: self.timestamp,
        }
    }
}

/// The contents of a list of submissions.
pub open spec fn submissions_view(s: Seq<Submission>) -> Seq<SubmissionView> {
    s.map_values(|x: Submission| x@)
}

/// Where the long description of a quest is found.
pub enum MetadataDescription {
    /// The description itself.
    Inline(Vec<u8>),
    /// The hash of a description kept elsewhere.
    Hash([u8; 32]),
}

/// What a description holds, as plain values.
pub enum DescriptionView {
    Inline(Seq<u8>),
    Hash(Seq<u8>),
}

impl View for MetadataDescription {
    type V = DescriptionView;

    open spec fn view(&self) -> DescriptionView {
        match self {
            MetadataDescription::Inline(d) => DescriptionView::Inline(d@),
            MetadataDescription::Hash(h) => DescriptionView::Hash(h@),
        }
    }
}

/// Descriptive data about a quest.
pub struct QuestMetadata {
    pub title: Vec<u8>,
    pub description: MetadataDescription,
    pub requirements: Vec<Vec<u8>>,
    pub category: Vec<u8>,
    pub tags: Vec<Vec<u8>>,
}

/// What quest metadata holds, as plain values.
pub struct MetadataView {
    pub title: Seq<u8>,
    pub description: DescriptionView,
    pub requirements: Seq<Seq<u8>>,
    pub category: Seq<u8>,
    pub tags: Seq<Seq<u8>>,
}

impl View for QuestMetadata {
    type V = MetadataView;

    open spec fn view(&self) -> MetadataView {
        MetadataView {
            title: self.title@,
            description: self.description@,
            requirements: byte_strings_view(self.requirements@),
            category: self.category@,
            tags: byte_strings_view(self.tags@),
        }
    }
}

impl QuestMetadata {
    /// A copy of the metadata.
    pub fn duplicate(&self) -> (r: QuestMetadata)
        ensures
            r@ == self@,
    {
        let description = match &self.description {
            MetadataDescription::Inline(d) => MetadataDescription::Inline(copy_bytes(d)),
            MetadataDescription::Hash(h) => MetadataDescription::Hash(*h),
        };
        QuestMetadata {
            title: copy_bytes(&self.title),
            description,
            requirements: copy_byte_strings(&self.requirements),
            category: copy_bytes(&self.category),
            tags: copy_byte_strings(&self.tags),
        }
    }
}

/// One quest of a batch registration; the creator is shared by the batch.
pub struct BatchQuestInput {
    pub id: Symbol,
    pub reward_asset: Address,
    pub reward_amount: i128,
    pub verifier: Address,
    pub deadline: u64,
}

/// What a batch registration item holds, as plain values.
pub struct BatchQuestView {
    pub id: Seq<u8>,
    pub reward_asset: Seq<u8>,
    pub reward_amount: i128,
    pub verifier: Seq<u8>,
    pub deadline: u64,
}

impl View for BatchQuestInput {
    type V = BatchQuestView;

    open spec fn view(&self) -> BatchQuestView {
        BatchQuestView {
            id: self.id@,
            reward_asset: self.reward_asset@,
            reward_amount: self.reward_amount,
            verifier: self.verifier@,
            deadline: self.deadline,
        }
    }
}

/// The contents of a batch of quests to register.
pub open spec fn batch_quests_view(s: Seq<BatchQuestInput>) -> Seq<BatchQuestView> {
    s.map_values(|x: BatchQuestInput| x@)
}

/// One submission of a batch approval.
pub struct BatchApprovalInput {
    pub quest_id: Symbol,
    pub submitter: Address,
}

/// What a batch approval item holds, as plain values.
pub struct BatchApprovalView {
    pub quest_id: Seq<u8>,
    pub submitter: Seq<u8>,
}

impl View for BatchApprovalInput {
    type V = BatchApprovalView;

    open spec fn view(&self) -> BatchApprovalView {
        BatchApprovalView { quest_id: self.quest_id@, submitter: self.submitter@ }
    }
}

/// The contents of a batch of approvals.
pub open spec fn batch_approvals_view(s: Seq<BatchApprovalInput>) -> Seq<BatchApprovalView> {
    s.map_values(|x: BatchApprovalInput| x@)
}

/// The funds held in escrow for the rewards of one quest.
pub struct Escrow {
    pub quest_id: Symbol,
    pub balance: i128,
    pub active: bool,
}

/// What an escrow holds, as plain values.
pub struct EscrowView {
    pub quest_id: Seq<u8>,
    pub balance: i128,
    pub active: bool,
}

impl View for Escrow {
    type V = EscrowView;

    open spec fn view(&self) -> EscrowView {
        EscrowView { quest_id: self.quest_id@, balance: self.balance, active: self.active }
    }
}

} // verus!
