use whitenoise_cli::batch::{check_batch_path, BatchCommand, BatchOperation, BatchRunner};
use whitenoise_cli::commands::{Commands, ContactCommands, GroupCommands, MessageCommands};
use whitenoise_cli::contacts::classify_pubkey;
use whitenoise_cli::error::CliError;

const VALID: &str = "1111111111111111111111111111111111111111111111111111111111111111";

/// Performs an operation the way a caller would, as far as this test needs.
fn perform(op: BatchCommand) -> Result<String, String> {
    match op.into_command() {
        Commands::Contact { command: ContactCommands::Add { pubkey, name } } => {
            match classify_pubkey(&pubkey) {
                Ok(_) => Ok(format!("added {}", name)),
                Err(e) => Err(e.message().clone()),
            }
        }
        Commands::Group { command: GroupCommands::Create { name, .. } } => Ok(format!("created {}", name)),
        _ => Err("unsupported".to_string()),
    }
}

#[test]
fn batch_results_keep_length_and_order() {
    let batch = BatchOperation {
        operations: vec![
            BatchCommand::ContactAdd { pubkey: VALID.to_string(), name: "a".to_string() },
            BatchCommand::ContactAdd { pubkey: "not-a-key".to_string(), name: "b".to_string() },
            BatchCommand::GroupCreate { name: "g".to_string(), description: None, members: None },
        ],
    };
    let mut runner = BatchRunner::new(batch);
    while let Some(op) = runner.next_operation() {
        let outcome = perform(op);
        runner.record(outcome);
    }
    let results = runner.finish();
    assert_eq!(results.len(), 3);
    let flags: Vec<bool> = results.iter().map(|r| r.success).collect();
    assert_eq!(flags, vec![true, false, true]);
    assert_eq!(results[0].output.as_deref(), Some("added a"));
    assert!(results[1].output.is_none());
    assert!(results[1].error.is_some());
    assert_eq!(results[2].output.as_deref(), Some("created g"));
}

#[test]
fn empty_batch_yields_no_results() {
    let mut runner = BatchRunner::new(BatchOperation { operations: vec![] });
    assert!(runner.next_operation().is_none());
    assert!(runner.finish().is_empty());
}

#[test]
fn batch_operations_map_to_commands() {
    let op = BatchCommand::GroupCreate {
        name: "team".to_string(),
        description: Some("d".to_string()),
        members: Some(vec!["k1".to_string(), "k2".to_string(), "k3".to_string()]),
    };
    match op.into_command() {
        Commands::Group { command: GroupCommands::Create { name, description, members } } => {
            assert_eq!(name, "team");
            assert_eq!(description.as_deref(), Some("d"));
            assert_eq!(members.as_deref(), Some("k1,k2,k3"));
        }
        other => panic!("unexpected {:?}", other),
    }
    let op = BatchCommand::MessageSend { group_id: "ab".to_string(), message: "hi".to_string(), kind: None };
    match op.into_command() {
        Commands::Message { command: MessageCommands::Send { kind, .. } } => assert_eq!(kind, 1),
        other => panic!("unexpected {:?}", other),
    }
    let op = BatchCommand::MessageSend { group_id: "ab".to_string(), message: "hi".to_string(), kind: Some(7) };
    match op.into_command() {
        Commands::Message { command: MessageCommands::Send { kind, .. } } => assert_eq!(kind, 7),
        other => panic!("unexpected {:?}", other),
    }
}

#[test]
fn batch_files_must_be_json() {
    assert!(check_batch_path("ops.json").is_ok());
    match check_batch_path("ops.yaml") {
        Err(CliError::Validation(m)) => assert_eq!(m, "Only JSON batch files are supported currently"),
        other => panic!("unexpected {:?}", other),
    }
    assert!(check_batch_path("json").is_err());
}
