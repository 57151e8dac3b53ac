use vstd::prelude::*;

use crate::types::{
    quests_view, submissions_view, Address, Escrow, EscrowView, MetadataView, Quest, QuestMetadata,
    QuestStatus, QuestView, Submission, SubmissionStatus, SubmissionView, Symbol,
};
use crate::validation::MAX_QUESTS;

verus! {

/// The metadata stored for one quest.
pub struct MetadataEntry {
    pub quest_id: Symbol,
    pub metadata: QuestMetadata,
}

impl View for MetadataEntry {
    type V = (Seq<u8>, MetadataView);

    open spec fn view(&self) -> (Seq<u8>, MetadataView) {
        (self.quest_id@, self.metadata@)
    }
}

impl MetadataEntry {
    /// A copy of the entry.
    pub fn duplicate(&self) -> (r: MetadataEntry)
        ensures
            r@ == self@,
    {
        MetadataEntry { quest_id: self.quest_id.duplicate(), metadata: self.metadata.duplicate() }
    }
}

/// The contents of the board, as plain values.
#[verifier::ext_equal]
pub struct BoardView {
    /// The quests, in the order in which they were registered.
    pub quests: Seq<QuestView>,
    /// The metadata of the quests that have some, by quest name.
    pub metadata: Seq<(Seq<u8>, MetadataView)>,
    /// The submissions, at most one for each quest and submitter.
    pub submissions: Seq<SubmissionView>,
    /// The escrows, at most one for each quest.
    pub escrows: Seq<EscrowView>,
    /// The administrators.
    pub admins: Seq<Seq<u8>>,
}

impl BoardView {
    /// No two quests share a name, no quest has two submissions from one submitter, no quest
    /// has two metadata entries or two escrows, and the quest list fits its `u32` index.
    pub open spec fn wf(self) -> bool {
        &&& forall|i: int, j: int|
            0 <= i < self.quests.len() && 0 <= j < self.quests.len() && i != j
                ==> #[trigger] self.quests[i].id != #[trigger] self.quests[j].id
        &&& forall|i: int, j: int|
            0 <= i < self.submissions.len() && 0 <= j < self.submissions.len() && i != j
                ==> !same_submission_key(#[trigger] self.submissions[i], #[trigger] self.submissions[j])
        &&& forall|i: int, j: int|
            0 <= i < self.metadata.len() && 0 <= j < self.metadata.len() && i != j
                ==> #[trigger] self.metadata[i].0 != #[trigger] self.metadata[j].0
        &&& forall|i: int, j: int|
            0 <= i < self.escrows.len() && 0 <= j < self.escrows.len() && i != j
                ==> #[trigger] self.escrows[i].quest_id != #[trigger] self.escrows[j].quest_id
        &&& self.quests.len() <= MAX_QUESTS
    }

    /// Whether a quest with this name is registered.
    pub open spec fn has_quest(self, id: Seq<u8>) -> bool {
        exists|i: int| 0 <= i < self.quests.len() && #[trigger] self.quests[i].id == id
    }

    /// The position of the quest with this name.
    pub open spec fn quest_index(self, id: Seq<u8>) -> int {
        choose|i: int| 0 <= i < self.quests.len() && #[trigger] self.quests[i].id == id
    }

    /// The quest with this name, if any.
    pub open spec fn quest(self, id: Seq<u8>) -> Option<QuestView> {
        if self.has_quest(id) {
            Some(self.quests[self.quest_index(id)])
        } else {
            None
        }
    }

    /// Whether this submitter has a submission for this quest.
    pub open spec fn has_submission(self, quest_id: Seq<u8>, submitter: Seq<u8>) -> bool {
        exists|i: int|
            0 <= i < self.submissions.len() && #[trigger] submission_key_is(
                self.submissions[i],
                quest_id,
                submitter,
            )
    }

    /// The position of this submitter's submission for this quest.
    pub open spec fn submission_index(self, quest_id: Seq<u8>, submitter: Seq<u8>) -> int {
        choose|i: int|
            0 <= i < self.submissions.len() && #[trigger] submission_key_is(
                self.submissions[i],
                quest_id,
                submitter,
            )
    }

    /// This submitter's submission for this quest, if any.
    pub open spec fn submission(self, quest_id: Seq<u8>, submitter: Seq<u8>) -> Option<
        SubmissionView,
    > {
        if self.has_submission(quest_id, submitter) {
            Some(self.submissions[self.submission_index(quest_id, submitter)])
        } else {
            None
        }
    }

    /// Whether the quest with this name has metadata.
    pub open spec fn has_metadata(self, quest_id: Seq<u8>) -> bool {
        exists|i: int| 0 <= i < self.metadata.len() && #[trigger] self.metadata[i].0 == quest_id
    }

    /// The position of the metadata of the quest with this name.
    pub open spec fn metadata_index(self, quest_id: Seq<u8>) -> int {
        choose|i: int| 0 <= i < self.metadata.len() && #[trigger] self.metadata[i].0 == quest_id
    }

    /// The metadata of the quest with this name, if any.
    pub open spec fn metadata_of(self, quest_id: Seq<u8>) -> Option<MetadataView> {
        if self.has_metadata(quest_id) {
            Some(self.metadata[self.metadata_index(quest_id)].1)
        } else {
            None
        }
    }

    /// Whether the quest with this name has an escrow.
    pub open spec fn has_escrow(self, quest_id: Seq<u8>) -> bool {
        exists|i: int| 0 <= i < self.escrows.len() && #[trigger] self.escrows[i].quest_id == quest_id
    }

    /// The position of the escrow of the quest with this name.
    pub open spec fn escrow_index(self, quest_id: Seq<u8>) -> int {
        choose|i: int| 0 <= i < self.escrows.len() && #[trigger] self.escrows[i].quest_id == quest_id
    }

    /// The escrow of the quest with this name, if any.
    pub open spec fn escrow(self, quest_id: Seq<u8>) -> Option<EscrowView> {
        if self.has_escrow(quest_id) {
            Some(self.escrows[self.escrow_index(quest_id)])
        } else {
            None
        }
    }

    /// Whether this address is an administrator.
    pub open spec fn is_admin(self, who: Seq<u8>) -> bool {
        self.admins.contains(who)
    }

    /// The board with one more quest, registered last.
    pub open spec fn add_quest(self, q: QuestView) -> BoardView {
        BoardView { quests: self.quests.push(q), ..self }
    }

    /// The board where the quest with this name has the given status.
    pub open spec fn with_quest_status(self, id: Seq<u8>, status: QuestStatus) -> BoardView {
        let i = self.quest_index(id);
        BoardView { quests: self.quests.update(i, QuestView { status, ..self.quests[i] }), ..self }
    }

    /// The board where this submitter's submission for this quest has the given status.
    pub open spec fn with_submission_status(
        self,
        quest_id: Seq<u8>,
        submitter: Seq<u8>,
        status: SubmissionStatus,
    ) -> BoardView {
        let i = self.submission_index(quest_id, submitter);
        BoardView {
            submissions: self.submissions.update(i, SubmissionView { status, ..self.submissions[i] }),
            ..self
        }
    }

    /// The board where the submission replaces the one of its quest and submitter, or is added.
    pub open spec fn put_submission(self, s: SubmissionView) -> BoardView {
        if self.has_submission(s.quest_id, s.submitter) {
            BoardView {
                submissions: self.submissions.update(
                    self.submission_index(s.quest_id, s.submitter),
                    s,
                ),
                ..self
            }
        } else {
            BoardView { submissions: self.submissions.push(s), ..self }
        }
    }

    /// The board where the quest with this name has the given metadata.
    pub open spec fn put_metadata(self, quest_id: Seq<u8>, m: MetadataView) -> BoardView {
        if self.has_metadata(quest_id) {
            BoardView {
                metadata: self.metadata.update(self.metadata_index(quest_id), (quest_id, m)),
                ..self
            }
        } else {
            BoardView { metadata: self.metadata.push((quest_id, m)), ..self }
        }
    }

    /// The board where the escrow replaces the one of its quest, or is added.
    pub open spec fn put_escrow(self, e: EscrowView) -> BoardView {
        if self.has_escrow(e.quest_id) {
            BoardView {
                escrows: self.escrows.update(self.escrow_index(e.quest_id), e),
                ..self
            }
        } else {
            BoardView { escrows: self.escrows.push(e), ..self }
        }
    }

    /// The board with this address among the administrators.
    pub open spec fn add_admin(self, who: Seq<u8>) -> BoardView {
        if self.is_admin(who) {
            self
        } else {
            BoardView { admins: self.admins.push(who), ..self }
        }
    }

    pub proof fn lemma_quest_index(self, id: Seq<u8>, i: int)
        requires
            self.wf(),
            0 <= i < self.quests.len(),
            self.quests[i].id == id,
        ensures
            self.has_quest(id),
            self.quest_index(id) == i,
            self.quest(id) == Some(self.quests[i]),
    {
        let j = self.quest_index(id);
        assert(self.quests[j].id == id);
    }

    pub proof fn lemma_submission_index(self, quest_id: Seq<u8>, submitter: Seq<u8>, i: int)
        requires
            self.wf(),
            0 <= i < self.submissions.len(),
            submission_key_is(self.submissions[i], quest_id, submitter),
        ensures
            self.has_submission(quest_id, submitter),
            self.submission_index(quest_id, submitter) == i,
            self.submission(quest_id, submitter) == Some(self.submissions[i]),
    {
        let j = self.submission_index(quest_id, submitter);
        assert(submission_key_is(self.submissions[j], quest_id, submitter));
        assert(same_submission_key(self.submissions[i], self.submissions[j]));
    }

    pub proof fn lemma_metadata_index(self, quest_id: Seq<u8>, i: int)
        requires
            self.wf(),
            0 <= i < self.metadata.len(),
            self.metadata[i].0 == quest_id,
        ensures
            self.has_metadata(quest_id),
            self.metadata_index(quest_id) == i,
    {
        let j = self.metadata_index(quest_id);
        assert(self.metadata[j].0 == quest_id);
    }

    pub proof fn lemma_escrow_index(self, quest_id: Seq<u8>, i: int)
        requires
            self.wf(),
            0 <= i < self.escrows.len(),
            self.escrows[i].quest_id == quest_id,
        ensures
            self.has_escrow(quest_id),
            self.escrow_index(quest_id) == i,
            self.escrow(quest_id) == Some(self.escrows[i]),
    {
        let j = self.escrow_index(quest_id);
        assert(self.escrows[j].quest_id == quest_id);
    }
}

/// Whether the submission is the one of this quest and submitter.
pub open spec fn submission_key_is(s: SubmissionView, quest_id: Seq<u8>, submitter: Seq<u8>) -> bool {
    s.quest_id == quest_id && s.submitter == submitter
}

/// Whether two submissions are for the same quest by the same submitter.
pub open spec fn same_submission_key(a: SubmissionView, b: SubmissionView) -> bool {
    a.quest_id == b.quest_id && a.submitter == b.submitter
}

/// The contents of a list of metadata entries.
pub open spec fn metadata_view(s: Seq<MetadataEntry>) -> Seq<(Seq<u8>, MetadataView)> {
    s.map_values(|e: MetadataEntry| e@)
}

/// The contents of a list of escrows.
pub open spec fn escrows_view(s: Seq<Escrow>) -> Seq<EscrowView> {
    s.map_values(|e: Escrow| e@)
}

/// The contents of a list of addresses.
pub open spec fn addresses_view(s: Seq<Address>) -> Seq<Seq<u8>> {
    s.map_values(|a: Address| a@)
}

/// The board that holds exactly the given quests, metadata, submissions, escrows and
/// administrators, in the given order.
pub open spec fn parts_view(
    quests: Seq<Quest>,
    metadata: Seq<MetadataEntry>,
    submissions: Seq<Submission>,
    escrows: Seq<Escrow>,
    admins: Seq<Address>,
) -> BoardView {
    BoardView {
        quests: quests_view(quests),
        metadata: metadata_view(metadata),
        submissions: submissions_view(submissions),
        escrows: escrows_view(escrows),
        admins: addresses_view(admins),
    }
}

/// Everything the quest contract keeps: quests, their metadata, submissions, escrows and
/// administrators.
pub struct QuestBoard {
    quests: Vec<Quest>,
    metadata: Vec<MetadataEntry>,
    submissions: Vec<Submission>,
    escrows: Vec<Escrow>,
    admins: Vec<Address>,
}

impl View for QuestBoard {
    type V = BoardView;

    closed spec fn view(&self) -> BoardView {
        BoardView {
            quests: quests_view(self.quests@),
            metadata: metadata_view(self.metadata@),
            submissions: submissions_view(self.submissions@),
            escrows: escrows_view(self.escrows@),
            admins: addresses_view(self.admins@),
        }
    }
}

impl QuestBoard {
    /// Whether the board's contents are consistent.
    pub open spec fn wf(&self) -> bool {
        self@.wf()
    }

    /// An empty board.
    pub fn new() -> (b: QuestBoard)
        ensures
            b.wf(),
            b@.quests.len() == 0,
            b@.metadata.len() == 0,
            b@.submissions.len() == 0,
            b@.escrows.len() == 0,
            b@.admins.len() == 0,
    {
        let b = QuestBoard {
            quests: Vec::new(),
            metadata: Vec::new(),
            submissions: Vec::new(),
            escrows: Vec::new(),
            admins: Vec::new(),
        };
        assert(b@.quests =~= Seq::<QuestView>::empty());
        b
    }

    /// An empty board whose one administrator is `who`.
    pub fn with_admin(who: Address) -> (b: QuestBoard)
        ensures
            b.wf(),
            b@ == (BoardView {
                quests: Seq::empty(),
                metadata: Seq::empty(),
                submissions: Seq::empty(),
                escrows: Seq::empty(),
                admins: seq![who@],
            }),
    {
        let ghost w = who@;
        let mut admins: Vec<Address> = Vec::new();
        admins.push(who);
        let b = QuestBoard {
            quests: Vec::new(),
            metadata: Vec::new(),
            submissions: Vec::new(),
            escrows: Vec::new(),
            admins,
        };
        assert(b@ =~= (BoardView {
            quests: Seq::empty(),
            metadata: Seq::empty(),
            submissions: Seq::empty(),
            escrows: Seq::empty(),
            admins: seq![w],
        }));
        b
    }

    /// The board that holds exactly the given parts, in the given order, if they are
    /// consistent: no name, metadata entry, escrow or submitter of a quest repeats, and the
    /// quests fit the board.
    pub fn from_parts(
        quests: &Vec<Quest>,
        metadata: &Vec<MetadataEntry>,
        submissions: &Vec<Submission>,
        escrows: &Vec<Escrow>,
        admins: &Vec<Address>,
    ) -> (r: Option<QuestBoard>)
        ensures
            match r {
                Some(b) => b.wf() && b@ == parts_view(
                    quests@,
                    metadata@,
                    submissions@,
                    escrows@,
                    admins@,
                ),
                None => !parts_view(quests@, metadata@, submissions@, escrows@, admins@).wf(),
            },
    {
        let ghost target = parts_view(quests@, metadata@, submissions@, escrows@, admins@);
        let mut b = QuestBoard::new();
        assert(b@ =~= (BoardView {
            quests: target.quests.take(0),
            metadata: Seq::empty(),
            submissions: Seq::empty(),
            escrows: Seq::empty(),
            admins: Seq::empty(),
        }));
        let mut i: usize = 0;
        while i < quests.len()
            invariant
                i <= quests@.len(),
                target == parts_view(quests@, metadata@, submissions@, escrows@, admins@),
                b.wf(),
                b@ == (BoardView {
                    quests: target.quests.take(i as int),
                    metadata: Seq::empty(),
                    submissions: Seq::empty(),
                    escrows: Seq::empty(),
                    admins: Seq::empty(),
                }),
            decreases quests@.len() - i,
        {
            let q = &quests[i];
            assert(q@ == target.quests[i as int]);
            if let Some(j) = b.find_quest(&q.id) {
                assert(target.quests[j as int].id == target.quests[i as int].id);
                return None;
            }
            if b.quest_count() >= MAX_QUESTS {
                return None;
            }
            let ghost before = b@;
            b.push_quest(q.duplicate());
            assert(b@ =~= (BoardView {
                quests: target.quests.take(i + 1),
                metadata: Seq::empty(),
                submissions: Seq::empty(),
                escrows: Seq::empty(),
                admins: Seq::empty(),
            }));
            i = i + 1;
        }
        assert(target.quests.take(i as int) =~= target.quests);
        let mut i: usize = 0;
        assert(target.metadata.take(0) =~= Seq::<(Seq<u8>, MetadataView)>::empty());
        while i < metadata.len()
            invariant
                i <= metadata@.len(),
                target == parts_view(quests@, metadata@, submissions@, escrows@, admins@),
                b.wf(),
                b@ == (BoardView {
                    quests: target.quests,
                    metadata: target.metadata.take(i as int),
                    submissions: Seq::empty(),
                    escrows: Seq::empty(),
                    admins: Seq::empty(),
                }),
            decreases metadata@.len() - i,
        {
            let m = &metadata[i];
            assert(m@ == target.metadata[i as int]);
            if let Some(j) = b.find_metadata(&m.quest_id) {
                assert(target.metadata[j as int].0 == target.metadata[i as int].0);
                return None;
            }
            b.put_metadata(m.quest_id.duplicate(), m.metadata.duplicate());
            assert(b@ =~= (BoardView {
                quests: target.quests,
                metadata: target.metadata.take(i + 1),
                submissions: Seq::empty(),
                escrows: Seq::empty(),
                admins: Seq::empty(),
            }));
            i = i + 1;
        }
        assert(target.metadata.take(i as int) =~= target.metadata);
        let mut i: usize = 0;
        assert(target.submissions.take(0) =~= Seq::<SubmissionView>::empty());
        while i < submissions.len()
            invariant
                i <= submissions@.len(),
                target == parts_view(quests@, metadata@, submissions@, escrows@, admins@),
                b.wf(),
                b@ == (BoardView {
                    quests: target.quests,
                    metadata: target.metadata,
                    submissions: target.submissions.take(i as int),
                    escrows: Seq::empty(),
                    admins: Seq::empty(),
                }),
            decreases submissions@.len() - i,
        {
            let x = &submissions[i];
            assert(x@ == target.submissions[i as int]);
            if let Some(j) = b.find_submission(&x.quest_id, &x.submitter) {
                assert(same_submission_key(
                    target.submissions[j as int],
                    target.submissions[i as int],
                ));
                return None;
            }
            b.put_submission(x.duplicate());
            assert(b@ =~= (BoardView {
                quests: target.quests,
                metadata: target.metadata,
                submissions: target.submissions.take(i + 1),
                escrows: Seq::empty(),
                admins: Seq::empty(),
            }));
            i = i + 1;
        }
        assert(target.submissions.take(i as int) =~= target.submissions);
        let mut i: usize = 0;
        assert(target.escrows.take(0) =~= Seq::<EscrowView>::empty());
        while i < escrows.len()
            invariant
                i <= escrows@.len(),
                target == parts_view(quests@, metadata@, submissions@, escrows@, admins@),
                b.wf(),
                b@ == (BoardView {
                    quests: target.quests,
                    metadata: target.metadata,
                    submissions: target.submissions,
                    escrows: target.escrows.take(i as int),
                    admins: Seq::empty(),
                }),
            decreases escrows@.len() - i,
        {
            let e = &escrows[i];
            assert(e@ == target.escrows[i as int]);
            if let Some(j) = b.find_escrow(&e.quest_id) {
                assert(target.escrows[j as int].quest_id == target.escrows[i as int].quest_id);
                return None;
            }
            b.put_escrow(Escrow { quest_id: e.quest_id.duplicate(), balance: e.balance, active: e.active });
            assert(b@ =~= (BoardView {
                quests: target.quests,
                metadata: target.metadata,
                submissions: target.submissions,
                escrows: target.escrows.take(i + 1),
                admins: Seq::empty(),
            }));
            i = i + 1;
        }
        assert(target.escrows.take(i as int) =~= target.escrows);
        let mut copied: Vec<Address> = Vec::new();
        let mut i: usize = 0;
        while i < admins.len()
            invariant
                i <= admins@.len(),
                copied@.len() == i,
                forall|k: int| 0 <= k < i ==> (#[trigger] copied@[k])@ == admins@[k]@,
            decreases admins@.len() - i,
        {
            copied.push(admins[i].duplicate());
            i = i + 1;
        }
        assert(addresses_view(copied@) =~= target.admins);
        let ghost before = b@;
        b.admins = copied;
        assert(b@ =~= target);
        assert(before.quests == target.quests && before.metadata == target.metadata
            && before.submissions == target.submissions && before.escrows == target.escrows);
        assert(target.wf());
        Some(b)
    }

    /// The registered quests, in the order of registration.
    pub fn quests(&self) -> (r: &Vec<Quest>)
        ensures
            quests_view(r@) == self@.quests,
    {
        &self.quests
    }

    /// The number of registered quests.
    pub fn quest_count(&self) -> (n: usize)
        ensures
            n == self@.quests.len(),
    {
        self.quests.len()
    }

    /// The position of the quest with this name, if it is registered.
    pub fn find_quest(&self, id: &Symbol) -> (r: Option<usize>)
        requires
            self.wf(),
        ensures
            match r {
                Some(i) => {
                    &&& i < self@.quests.len()
                    &&& self@.has_quest(id@)
                    &&& self@.quest_index(id@) == i
                    &&& self@.quest(id@) == Some(self@.quests[i as int])
                },
                None => !self@.has_quest(id@),
            },
    {
        let mut i: usize = 0;
        while i < self.quests.len()
            invariant
                i <= self.quests@.len(),
                self.wf(),
                forall|j: int| 0 <= j < i ==> self@.quests[j].id != id@,
            decreases self.quests@.len() - i,
        {
            if self.quests[i].id.same_as(id) {
                proof {
                    self@.lemma_quest_index(id@, i as int);
                }
                return Some(i);
            }
            i = i + 1;
        }
        None
    }

    /// The quest at this position.
    pub fn quest_at(&self, i: usize) -> (q: &Quest)
        requires
            i < self@.quests.len(),
        ensures
            q@ == self@.quests[i as int],
    {
        &self.quests[i]
    }

    /// Registers a quest with a new name.
    pub(crate) fn push_quest(&mut self, q: Quest)
        requires
            old(self).wf(),
            !old(self)@.has_quest(q.id@),
            old(self)@.quests.len() < MAX_QUESTS,
        ensures
            final(self).wf(),
            final(self)@ == old(self)@.add_quest(q@),
    {
        let ghost q_view = q@;
        self.quests.push(q);
        proof {
            assert(self@ =~= old(self)@.add_quest(q_view));
            let n = old(self)@.quests.len();
            assert forall|i: int, j: int|
                0 <= i < self@.quests.len() && 0 <= j < self@.quests.len() && i != j implies
                #[trigger] self@.quests[i].id != #[trigger] self@.quests[j].id by {
                if i == n {
                    assert(old(self)@.quests[j].id == self@.quests[j].id);
                } else if j == n {
                    assert(old(self)@.quests[i].id == self@.quests[i].id);
                } else {
                    assert(old(self)@.quests[i] == self@.quests[i]);
                    assert(old(self)@.quests[j] == self@.quests[j]);
                }
            }
        }
    }

    /// Drops the quests registered after the first `len`.
    pub(crate) fn truncate_quests(&mut self, len: usize)
        requires
            old(self).wf(),
            len <= old(self)@.quests.len(),
        ensures
            final(self).wf(),
            final(self)@ == (BoardView { quests: old(self)@.quests.take(len as int), ..old(self)@ }),
    {
        self.quests.truncate(len);
        proof {
            assert(self@.quests =~= old(self)@.quests.take(len as int));
            assert forall|i: int, j: int|
                0 <= i < self@.quests.len() && 0 <= j < self@.quests.len() && i != j implies
                #[trigger] self@.quests[i].id != #[trigger] self@.quests[j].id by {
                assert(old(self)@.quests[i] == self@.quests[i]);
                assert(old(self)@.quests[j] == self@.quests[j]);
            }
        }
    }

    /// Sets the status of the quest at this position.
    pub(crate) fn set_quest_status(&mut self, i: usize, status: QuestStatus)
        requires
            old(self).wf(),
            i < old(self)@.quests.len(),
        ensures
            final(self).wf(),
            final(self)@ == old(self)@.with_quest_status(old(self)@.quests[i as int].id, status),
    {
        proof {
            old(self)@.lemma_quest_index(old(self)@.quests[i as int].id, i as int);
        }
        let ghost qid = self@.quests[i as int].id;
        self.quests[i].status = status;
        proof {
            assert(self@.quests =~= old(self)@.with_quest_status(qid, status).quests);
            assert forall|a: int, b: int|
                0 <= a < self@.quests.len() && 0 <= b < self@.quests.len() && a != b implies
                #[trigger] self@.quests[a].id != #[trigger] self@.quests[b].id by {
                assert(old(self)@.quests[a].id == self@.quests[a].id);
                assert(old(self)@.quests[b].id == self@.quests[b].id);
            }
        }
    }

    /// The submissions.
    pub fn submissions(&self) -> (r: &Vec<Submission>)
        ensures
            submissions_view(r@) == self@.submissions,
    {
        &self.submissions
    }

    /// The position of this submitter's submission for this quest, if any.
    pub fn find_submission(&self, quest_id: &Symbol, submitter: &Address) -> (r: Option<usize>)
        requires
            self.wf(),
        ensures
            match r {
                Some(i) => {
                    &&& i < self@.submissions.len()
                    &&& self@.has_submission(quest_id@, submitter@)
                    &&& self@.submission_index(quest_id@, submitter@) == i
                    &&& self@.submission(quest_id@, submitter@) == Some(self@.submissions[i as int])
                },
                None => !self@.has_submission(quest_id@, submitter@),
            },
    {
        let mut i: usize = 0;
        while i < self.submissions.len()
            invariant
                i <= self.submissions@.len(),
                self.wf(),
                forall|j: int|
                    0 <= j < i ==> !submission_key_is(
                        #[trigger] self@.submissions[j],
                        quest_id@,
                        submitter@,
                    ),
            decreases self.submissions@.len() - i,
        {
            let s = &self.submissions[i];
            if s.quest_id.same_as(quest_id) && s.submitter.same_as(submitter) {
                proof {
                    self@.lemma_submission_index(quest_id@, submitter@, i as int);
                }
                return Some(i);
            }
            i = i + 1;
        }
        proof {
            assert forall|j: int|
                0 <= j < self@.submissions.len() implies !submission_key_is(
                #[trigger] self@.submissions[j],
                quest_id@,
                submitter@,
            ) by {}
        }
        None
    }

    /// The submission at this position.
    pub fn submission_at(&self, i: usize) -> (s: &Submission)
        requires
            i < self@.submissions.len(),
        ensures
            s@ == self@.submissions[i as int],
    {
        &self.submissions[i]
    }

    /// Sets the status of the submission at this position.
    pub(crate) fn set_submission_status(&mut self, i: usize, status: SubmissionStatus)
        requires
            old(self).wf(),
            i < old(self)@.submissions.len(),
        ensures
            final(self).wf(),
            final(self)@ == old(self)@.with_submission_status(
                old(self)@.submissions[i as int].quest_id,
                old(self)@.submissions[i as int].submitter,
                status,
            ),
    {
        let ghost qid = self@.submissions[i as int].quest_id;
        let ghost who = self@.submissions[i as int].submitter;
        proof {
            old(self)@.lemma_submission_index(qid, who, i as int);
        }
        self.submissions[i].status = status;
        proof {
            assert(self@.submissions =~= old(self)@.with_submission_status(
                qid,
                who,
                status,
            ).submissions);
            assert forall|a: int, b: int|
                0 <= a < self@.submissions.len() && 0 <= b < self@.submissions.len() && a != b
                    implies !same_submission_key(
                #[trigger] self@.submissions[a],
                #[trigger] self@.submissions[b],
            ) by {
                assert(same_submission_key(old(self)@.submissions[a], self@.submissions[a]));
                assert(same_submission_key(old(self)@.submissions[b], self@.submissions[b]));
            }
        }
    }

    /// Stores a submission, replacing the one of its quest and submitter if there is one.
    pub(crate) fn put_submission(&mut self, s: Submission)
        requires
            old(self).wf(),
        ensures
            final(self).wf(),
            final(self)@ == old(self)@.put_submission(s@),
    {
        let ghost sv = s@;
        match self.find_submission(&s.quest_id, &s.submitter) {
            Some(i) => {
                self.submissions.set(i, s);
                proof {
                    assert(self@ =~= old(self)@.put_submission(sv));
                    assert forall|a: int, b: int|
                        0 <= a < self@.submissions.len() && 0 <= b < self@.submissions.len() && a
                            != b implies !same_submission_key(
                        #[trigger] self@.submissions[a],
                        #[trigger] self@.submissions[b],
                    ) by {
                        assert(same_submission_key(
                            old(self)@.submissions[a],
                            self@.submissions[a],
                        ));
                        assert(same_submission_key(
                            old(self)@.submissions[b],
                            self@.submissions[b],
                        ));
                    }
                }
            },
            None => {
                self.submissions.push(s);
                proof {
                    let n = old(self)@.submissions.len();
                    assert(self@ =~= old(self)@.put_submission(sv));
                    assert forall|a: int, b: int|
                        0 <= a < self@.submissions.len() && 0 <= b < self@.submissions.len() && a
                            != b implies !same_submission_key(
                        #[trigger] self@.submissions[a],
                        #[trigger] self@.submissions[b],
                    ) by {
                        if a == n {
                            assert(old(self)@.submissions[b] == self@.submissions[b]);
                            if same_submission_key(self@.submissions[a], self@.submissions[b]) {
                                assert(submission_key_is(
                                    old(self)@.submissions[b],
                                    sv.quest_id,
                                    sv.submitter,
                                ));
                            }
                        } else if b == n {
                            assert(old(self)@.submissions[a] == self@.submissions[a]);
                            if same_submission_key(self@.submissions[a], self@.submissions[b]) {
                                assert(submission_key_is(
                                    old(self)@.submissions[a],
                                    sv.quest_id,
                                    sv.submitter,
                                ));
                            }
                        } else {
                            assert(old(self)@.submissions[a] == self@.submissions[a]);
                            assert(old(self)@.submissions[b] == self@.submissions[b]);
                        }
                    }
                }
            },
        }
    }
    /// The position of the metadata of the quest with this name, if any.
    pub fn find_metadata(&self, quest_id: &Symbol) -> (r: Option<usize>)
        requires
            self.wf(),
        ensures
            match r {
                Some(i) => {
                    &&& i < self@.metadata.len()
                    &&& self@.has_metadata(quest_id@)
                    &&& self@.metadata_index(quest_id@) == i
                    &&& self@.metadata_of(quest_id@) == Some(self@.metadata[i as int].1)
                },
                None => !self@.has_metadata(quest_id@),
            },
    {
        let mut i: usize = 0;
        while i < self.metadata.len()
            invariant
                i <= self.metadata@.len(),
                self.wf(),
                forall|j: int| 0 <= j < i ==> self@.metadata[j].0 != quest_id@,
            decreases self.metadata@.len() - i,
        {
            if self.metadata[i].quest_id.same_as(quest_id) {
                proof {
                    self@.lemma_metadata_index(quest_id@, i as int);
                }
                return Some(i);
            }
            i = i + 1;
        }
        None
    }

    /// The metadata of the quest with this name, if any.
    pub fn get_metadata(&self, quest_id: &Symbol) -> (r: Option<&QuestMetadata>)
        requires
            self.wf(),
        ensures
            match r {
                Some(m) => self@.metadata_of(quest_id@) == Some(m@),
                None => self@.metadata_of(quest_id@) is None,
            },
    {
        match self.find_metadata(quest_id) {
            Some(i) => Some(&self.metadata[i].metadata),
            None => None,
        }
    }

    /// Stores the metadata of a quest, replacing what it had.
    pub(crate) fn put_metadata(&mut self, quest_id: Symbol, metadata: QuestMetadata)
        requires
            old(self).wf(),
        ensures
            final(self).wf(),
            final(self)@ == old(self)@.put_metadata(quest_id@, metadata@),
    {
        let ghost qid = quest_id@;
        let ghost mv = metadata@;
        match self.find_metadata(&quest_id) {
            Some(i) => {
                self.metadata.set(i, MetadataEntry { quest_id, metadata });
                proof {
                    assert(self@ =~= old(self)@.put_metadata(qid, mv));
                    assert forall|a: int, b: int|
                        0 <= a < self@.metadata.len() && 0 <= b < self@.metadata.len() && a != b
                            implies #[trigger] self@.metadata[a].0 != #[trigger] self@.metadata[b].0 by {
                        assert(old(self)@.metadata[a].0 == self@.metadata[a].0);
                        assert(old(self)@.metadata[b].0 == self@.metadata[b].0);
                    }
                }
            },
            None => {
                self.metadata.push(MetadataEntry { quest_id, metadata });
                proof {
                    let n = old(self)@.metadata.len();
                    assert(self@ =~= old(self)@.put_metadata(qid, mv));
                    assert forall|a: int, b: int|
                        0 <= a < self@.metadata.len() && 0 <= b < self@.metadata.len() && a != b
                            implies #[trigger] self@.metadata[a].0 != #[trigger] self@.metadata[b].0 by {
                        if a != n {
                            assert(old(self)@.metadata[a] == self@.metadata[a]);
                        }
                        if b != n {
                            assert(old(self)@.metadata[b] == self@.metadata[b]);
                        }
                    }
                }
            },
        }
    }

    /// The position of the escrow of the quest with this name, if any.
    pub fn find_escrow(&self, quest_id: &Symbol) -> (r: Option<usize>)
        requires
            self.wf(),
        ensures
            match r {
                Some(i) => {
                    &&& i < self@.escrows.len()
                    &&& self@.has_escrow(quest_id@)
                    &&& self@.escrow_index(quest_id@) == i
                    &&& self@.escrow(quest_id@) == Some(self@.escrows[i as int])
                },
                None => !self@.has_escrow(quest_id@),
            },
    {
        let mut i: usize = 0;
        while i < self.escrows.len()
            invariant
                i <= self.escrows@.len(),
                self.wf(),
                forall|j: int| 0 <= j < i ==> self@.escrows[j].quest_id != quest_id@,
            decreases self.escrows@.len() - i,
        {
            if self.escrows[i].quest_id.same_as(quest_id) {
                proof {
                    self@.lemma_escrow_index(quest_id@, i as int);
                }
                return Some(i);
            }
            i = i + 1;
        }
        None
    }

    /// The escrow at this position.
    pub fn escrow_at(&self, i: usize) -> (e: &Escrow)
        requires
            i < self@.escrows.len(),
        ensures
            e@ == self@.escrows[i as int],
    {
        &self.escrows[i]
    }

    /// Stores the escrow of a quest, replacing the one it had.
    pub(crate) fn put_escrow(&mut self, e: Escrow)
        requires
            old(self).wf(),
        ensures
            final(self).wf(),
            final(self)@ == old(self)@.put_escrow(e@),
    {
        let ghost ev = e@;
        match self.find_escrow(&e.quest_id) {
            Some(i) => {
                self.escrows.set(i, e);
                proof {
                    assert(self@ =~= old(self)@.put_escrow(ev));
                    assert forall|a: int, b: int|
                        0 <= a < self@.escrows.len() && 0 <= b < self@.escrows.len() && a != b
                            implies #[trigger] self@.escrows[a].quest_id
                            != #[trigger] self@.escrows[b].quest_id by {
                        assert(old(self)@.escrows[a].quest_id == self@.escrows[a].quest_id);
                        assert(old(self)@.escrows[b].quest_id == self@.escrows[b].quest_id);
                    }
                }
            },
            None => {
                self.escrows.push(e);
                proof {
                    let n = old(self)@.escrows.len();
                    assert(self@ =~= old(self)@.put_escrow(ev));
                    assert forall|a: int, b: int|
                        0 <= a < self@.escrows.len() && 0 <= b < self@.escrows.len() && a != b
                            implies #[trigger] self@.escrows[a].quest_id
                            != #[trigger] self@.escrows[b].quest_id by {
                        if a != n {
                            assert(old(self)@.escrows[a] == self@.escrows[a]);
                        }
                        if b != n {
                            assert(old(self)@.escrows[b] == self@.escrows[b]);
                        }
                    }
                }
            },
        }
    }

    /// Whether this address is an administrator.
    pub fn is_admin(&self, who: &Address) -> (r: bool)
        ensures
            r == self@.is_admin(who@),
    {
        let mut i: usize = 0;
        while i < self.admins.len()
            invariant
                i <= self.admins@.len(),
                forall|j: int| 0 <= j < i ==> self@.admins[j] != who@,
            decreases self.admins@.len() - i,
        {
            if self.admins[i].same_as(who) {
                assert(self@.admins[i as int] == who@);
                return true;
            }
            i = i + 1;
        }
        false
    }

    /// Makes this address an administrator.
    pub(crate) fn add_admin(&mut self, who: Address)
        requires
            old(self).wf(),
        ensures
            final(self).wf(),
            final(self)@ == old(self)@.add_admin(who@),
    {
        if !self.is_admin(&who) {
            let ghost w = who@;
            self.admins.push(who);
            proof {
                assert(self@ =~= old(self)@.add_admin(w));
            }
        }
    }
    /// A copy of the submissions.
    pub fn copy_submissions(&self) -> (r: Vec<Submission>)
        ensures
            submissions_view(r@) == self@.submissions,
    {
        let mut r: Vec<Submission> = Vec::new();
        let mut i: usize = 0;
        while i < self.submissions.len()
            invariant
                i <= self.submissions@.len(),
                r@.len() == i,
                forall|j: int| 0 <= j < i ==> (#[trigger] r@[j])@ == self.submissions@[j]@,
            decreases self.submissions@.len() - i,
        {
            r.push(self.submissions[i].duplicate());
            i = i + 1;
        }
        assert(submissions_view(r@) =~= self@.submissions);
        r
    }

    /// Replaces the submissions by the given ones.
    pub(crate) fn replace_submissions(&mut self, submissions: Vec<Submission>)
        requires
            (BoardView { submissions: submissions_view(submissions@), ..old(self)@ }).wf(),
        ensures
            final(self)@ == (BoardView { submissions: submissions_view(submissions@), ..old(self)@ }),
    {
        self.submissions = submissions;
        proof {
        }
    }
    /// The stored metadata entries.
    pub fn metadata_entries(&self) -> (r: &Vec<MetadataEntry>)
        ensures
            r@.map_values(|e: MetadataEntry| e@) == self@.metadata,
    {
        &self.metadata
    }

    /// The escrows.
    pub fn escrows(&self) -> (r: &Vec<Escrow>)
        ensures
            r@.map_values(|e: Escrow| e@) == self@.escrows,
    {
        &self.escrows
    }

    /// The administrators.
    pub fn admins(&self) -> (r: &Vec<Address>)
        ensures
            r@.map_values(|a: Address| a@) == self@.admins,
    {
        &self.admins
    }
}

} // verus!
