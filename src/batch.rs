use vstd::prelude::*;
use crate::commands::{
    AccountCommands, Commands, ContactCommands, GroupCommands, MessageCommands, RelayCommands,
};
use crate::error::CliError;
use crate::text::{has_suffix, owned, texts};

verus! {

/// One operation of a batch file.
#[derive(Debug)]
pub enum BatchCommand {
    AccountCreate { name: Option<String>, about: Option<String> },
    ContactAdd { pubkey: String, name: String },
    GroupCreate { name: String, description: Option<String>, members: Option<Vec<String>> },
    MessageSend { group_id: String, message: String, kind: Option<u16> },
    MessageDm { recipient: String, message: String },
    RelayAdd { url: String, relay_type: String },
}

/// The contents of a batch file.
#[derive(Debug)]
pub struct BatchOperation {
    pub operations: Vec<BatchCommand>,
}

/// The result of one operation of a batch.
#[derive(Debug)]
pub struct BatchResult {
    pub success: bool,
    pub output: Option<String>,
    pub error: Option<String>,
}

pub open spec fn opt_view(o: Option<String>) -> Option<Seq<char>> {
    match o {
        Some(s) => Some(s@),
        None => None,
    }
}

/// What a batch result shows: success flag, output and error.
pub open spec fn result_view(r: BatchResult) -> (bool, Option<Seq<char>>, Option<Seq<char>>) {
    (r.success, opt_view(r.output), opt_view(r.error))
}

/// The result that records an operation's outcome (its output, or its error message).
pub open spec fn outcome_view(o: Result<String, String>) -> (bool, Option<Seq<char>>, Option<Seq<char>>) {
    match o {
        Ok(out) => (true, Some(out@), None),
        Err(e) => (false, None, Some(e@)),
    }
}

/// The text of a list joined with commas.
pub open spec fn comma_joined(parts: Seq<Seq<char>>) -> Seq<char>
    decreases parts.len(),
{
    if parts.len() == 0 {
        Seq::empty()
    } else if parts.len() == 1 {
        parts[0]
    } else {
        comma_joined(parts.drop_last()) + ","@ + parts.last()
    }
}

fn join_commas(parts: &Vec<String>) -> (r: String)
    ensures
        r@ == comma_joined(texts(parts@)),
{
    let mut out = owned("");
    let mut i: usize = 0;
    proof {
        reveal_strlit("");
    }
    while i < parts.len()
        invariant
            i <= parts.len(),
            out@ == comma_joined(texts(parts@).subrange(0, i as int)),
        decreases parts.len() - i,
    {
        let ghost prefix = texts(parts@).subrange(0, i as int + 1);
        assert(prefix.drop_last() =~= texts(parts@).subrange(0, i as int));
        if i > 0 {
            out.append(",");
        } else {
            assert(out@ + parts@[0]@ =~= parts@[0]@);
        }
        out.append(parts[i].as_str());
        i = i + 1;
    }
    assert(texts(parts@).subrange(0, parts@.len() as int) =~= texts(parts@));
    out
}

impl BatchCommand {
    /// The command that an operation of a batch runs.
    pub fn into_command(self) -> (r: Commands)
        ensures
            match self {
                BatchCommand::AccountCreate { name, about } => r == Commands::Account {
                    command: AccountCommands::Create { name, about },
                },
                BatchCommand::ContactAdd { pubkey, name } => r == Commands::Contact {
                    command: ContactCommands::Add { pubkey, name },
                },
                BatchCommand::GroupCreate { name, description, members } => r matches Commands::Group {
                    command: GroupCommands::Create { name: n, description: d, members: m },
                } && n == name && d == description && opt_view(m) == match members {
                    Some(v) => Some(comma_joined(texts(v@))),
                    None => None,
                },
                BatchCommand::MessageSend { group_id, message, kind } => r == Commands::Message {
                    command: MessageCommands::Send {
                        group_id,
                        message,
                        kind: match kind {
                            Some(k) => k,
                            None => 1u16,
                        },
                    },
                },
                BatchCommand::MessageDm { recipient, message } => r == Commands::Message {
                    command: MessageCommands::Dm { recipient, message },
                },
                BatchCommand::RelayAdd { url, relay_type } => r == Commands::Relay {
                    command: RelayCommands::Add { url, relay_type },
                },
            },
    {
        match self {
            BatchCommand::AccountCreate { name, about } => Commands::Account {
                command: AccountCommands::Create { name, about },
            },
            BatchCommand::ContactAdd { pubkey, name } => Commands::Contact {
                command: ContactCommands::Add { pubkey, name },
            },
            BatchCommand::GroupCreate { name, description, members } => {
                let joined = match members {
                    Some(v) => Some(join_commas(&v)),
                    None => None,
                };
                Commands::Group {
                    command: GroupCommands::Create { name, description, members: joined },
                }
            },
            BatchCommand::MessageSend { group_id, message, kind } => {
                let k: u16 = match kind {
                    Some(k) => k,
                    None => 1,
                };
                Commands::Message { command: MessageCommands::Send { group_id, message, kind: k } }
            },
            BatchCommand::MessageDm { recipient, message } => Commands::Message {
                command: MessageCommands::Dm { recipient, message },
            },
            BatchCommand::RelayAdd { url, relay_type } => Commands::Relay {
                command: RelayCommands::Add { url, relay_type },
            },
        }
    }
}

/// Batch files are read as JSON only; any other file is refused before it is read.
pub fn check_batch_path(file_path: &str) -> (r: Result<(), CliError>)
    ensures
        r is Ok <==> (".json"@.len() <= file_path@.len() && file_path@.subrange(
            file_path@.len() - ".json"@.len(),
            file_path@.len() as int,
        ) == ".json"@),
        r matches Err(e) ==> e.is_validation(),
{
    if has_suffix(file_path, ".json") {
        Ok(())
    } else {
        Err(CliError::Validation(owned("Only JSON batch files are supported currently")))
    }
}

/// Runs a batch one operation at a time, in input order, on behalf of a
/// caller that performs each operation and hands back its outcome. Every
/// operation gets a result, whatever became of the ones before it; nothing is
/// retried or rolled back.
pub struct BatchRunner {
    remaining: Vec<BatchCommand>,
    results: Vec<BatchResult>,
    operations: Ghost<Seq<BatchCommand>>,
    outcomes: Ghost<Seq<Result<String, String>>>,
    handed_out: usize,
    awaiting: bool,
}

impl BatchRunner {
    /// The batch's operations, in input order.
    pub closed spec fn operations(&self) -> Seq<BatchCommand> {
        self.operations@
    }

    /// The outcomes handed back so far, one per operation, in order.
    pub closed spec fn outcomes(&self) -> Seq<Result<String, String>> {
        self.outcomes@
    }

    /// Whether an operation has been handed out and its outcome is still due.
    pub closed spec fn awaiting(&self) -> bool {
        self.awaiting
    }

    pub closed spec fn wf(&self) -> bool {
        &&& self.results@.len() == self.outcomes@.len()
        &&& self.handed_out == self.outcomes@.len() + if self.awaiting { 1int } else { 0 }
        &&& self.handed_out + self.remaining@.len() == self.operations@.len()
        &&& self.operations@.len() <= usize::MAX
        &&& self.remaining@ == self.operations@.subrange(self.handed_out as int, self.operations@.len() as int)
        &&& forall|i: int| 0 <= i < self.results@.len() ==> result_view(#[trigger] self.results@[i]) == outcome_view(self.outcomes@[i])
    }

    pub fn new(batch: BatchOperation) -> (r: Self)
        ensures
            r.wf(),
            !r.awaiting(),
            r.operations() == batch.operations@,
            r.outcomes() == Seq::<Result<String, String>>::empty(),
    {
        let ghost ops = batch.operations@;
        let n = batch.operations.len();
        let r = BatchRunner {
            remaining: batch.operations,
            results: Vec::new(),
            operations: Ghost(ops),
            outcomes: Ghost(Seq::empty()),
            handed_out: 0,
            awaiting: false,
        };
        assert(r.remaining@ =~= ops.subrange(0, ops.len() as int));
        r
    }

    /// Hands out the next operation, or `None` once every operation has
    /// been handed out.
    pub fn next_operation(&mut self) -> (r: Option<BatchCommand>)
        requires
            old(self).wf(),
            !old(self).awaiting(),
        ensures
            final(self).wf(),
            final(self).operations() == old(self).operations(),
            final(self).outcomes() == old(self).outcomes(),
            r is Some <==> old(self).outcomes().len() < old(self).operations().len(),
            r is Some ==> final(self).awaiting() && r->0 == old(self).operations()[old(self).outcomes().len() as int],
            r is None ==> !final(self).awaiting(),
    {
        if self.remaining.len() == 0 {
            return None;
        }
        let op = self.remaining.remove(0);
        self.handed_out = self.handed_out + 1;
        self.awaiting = true;
        assert(self.remaining@ =~= self.operations@.subrange(self.handed_out as int, self.operations@.len() as int));
        Some(op)
    }

    /// Records the outcome of the operation handed out last: its output, or
    /// its error message.
    pub fn record(&mut self, outcome: Result<String, String>)
        requires
            old(self).wf(),
            old(self).awaiting(),
        ensures
            final(self).wf(),
            !final(self).awaiting(),
            final(self).operations() == old(self).operations(),
            final(self).outcomes() == old(self).outcomes().push(outcome),
    {
        let ghost o = outcome;
        let result = match outcome {
            Ok(out) => BatchResult { success: true, output: Some(out), error: None },
            Err(e) => BatchResult { success: false, output: None, error: Some(e) },
        };
        assert(result_view(result) == outcome_view(o));
        self.results.push(result);
        self.outcomes = Ghost(self.outcomes@.push(o));
        self.awaiting = false;
        assert(self.results@.last() == result);
    }

    /// The results, once every operation has its outcome: one per operation,
    /// in input order, each showing that operation's own outcome.
    pub fn finish(self) -> (r: Vec<BatchResult>)
        requires
            self.wf(),
            !self.awaiting(),
            self.outcomes().len() == self.operations().len(),
        ensures
            r@.len() == self.operations().len(),
            forall|i: int| 0 <= i < r@.len() ==> result_view(#[trigger] r@[i]) == outcome_view(self.outcomes()[i]),
    {
        self.results
    }
}

/// The results of a batch are independent position by position: two runs
/// of the same length whose outcomes differ only at position `i` (one
/// failing there, say) have the same results at every other position.
pub proof fn lemma_batch_failure_isolated(
    results_a: Seq<BatchResult>,
    outcomes_a: Seq<Result<String, String>>,
    results_b: Seq<BatchResult>,
    outcomes_b: Seq<Result<String, String>>,
    i: int,
)
    requires
        results_a.len() == outcomes_a.len(),
        results_b.len() == outcomes_b.len(),
        outcomes_a.len() == outcomes_b.len(),
        forall|j: int| 0 <= j < results_a.len() ==> result_view(#[trigger] results_a[j]) == outcome_view(outcomes_a[j]),
        forall|j: int| 0 <= j < results_b.len() ==> result_view(#[trigger] results_b[j]) == outcome_view(outcomes_b[j]),
        forall|j: int| 0 <= j < outcomes_a.len() && j != i ==> #[trigger] outcomes_a[j] == outcomes_b[j],
    ensures
        results_a.len() == results_b.len(),
        forall|j: int| 0 <= j < results_a.len() && j != i ==> result_view(#[trigger] results_a[j]) == result_view(results_b[j]),
{
    assert forall|j: int| 0 <= j < results_a.len() && j != i implies result_view(#[trigger] results_a[j]) == result_view(results_b[j]) by {
        assert(outcomes_a[j] == outcomes_b[j]);
    }
}

} // verus!
