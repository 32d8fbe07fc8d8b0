use r_chat::base::{RchatCommand, RcommandResult};
use r_chat::cli::{read_request, report, CliOpt, CliStep, RchatCommandRequest};

#[test]
fn test_cliopt() {
    let cli = CliOpt { command: "start".to_string() };
    assert_eq!(RchatCommand::from_string(&cli.command), RchatCommand::Start);
}

#[test]
fn only_the_four_words_name_commands() {
    for word in ["start", "login", "p2p", "chat"] {
        assert!(RchatCommand::is_command(word));
    }
    for word in ["", "test", "Start", "LOGIN", " login", "logout", "stop", "start ", "logi", "chats"] {
        assert!(!RchatCommand::is_command(word));
    }
}

#[test]
fn a_line_without_words_is_answered() {
    assert_eq!(read_request(None, None), CliStep::Prompt("command is null ! \n".to_string()));
    assert_eq!(
        read_request(None, Some("x")),
        CliStep::Prompt("command is null ! \n".to_string())
    );
}

#[test]
fn a_line_without_argument_is_answered() {
    assert_eq!(
        read_request(Some("login"), None),
        CliStep::Prompt("args is null ! \n".to_string())
    );
}

#[test]
fn a_line_with_command_and_argument_is_a_request() {
    assert_eq!(
        read_request(Some("chat"), Some("hello")),
        CliStep::Send(RchatCommandRequest { command: RchatCommand::Chat, args: "hello".to_string() })
    );
}

#[test]
fn the_outcome_of_a_command_is_reported() {
    let done = RcommandResult {
        command: RchatCommand::Login,
        is_success: true,
        err_msg: "ignored".to_string(),
    };
    assert_eq!(report(&done), "执行完成\n");
    let failed = RcommandResult {
        command: RchatCommand::Login,
        is_success: false,
        err_msg: "no server".to_string(),
    };
    assert_eq!(report(&failed), "执行失败! cause:no server\n");
}
