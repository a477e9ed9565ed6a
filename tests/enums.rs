use zero_db::{MetaCommand, MetaCommandError};

#[test]
pub fn test_meta_command_from_str_exit() {
    assert_eq!(MetaCommand::Exit, MetaCommand::from_str("exit").unwrap());
}

#[test]
pub fn test_meta_command_from_str_invalid() {
    let result: Result<MetaCommand, MetaCommandError> = MetaCommand::from_str("");
    assert!(result.is_err());
    assert_eq!(result.unwrap_err().to_string(), "Invalid meta-command");
}

#[test]
fn meta_command_names_are_exact() {
    assert_eq!(MetaCommand::from_str("bogus"), Err(MetaCommandError::Invalid));
    assert_eq!(MetaCommand::from_str("exit "), Err(MetaCommandError::Invalid));
    assert_eq!(MetaCommand::from_str("exi"), Err(MetaCommandError::Invalid));
    assert_eq!(MetaCommand::from_str("EXIT"), Err(MetaCommandError::Invalid));
}
