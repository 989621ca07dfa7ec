//! The commands that start with a slash.
use vstd::prelude::*;

use crate::list::{empty, put, take_all, take_next};
use crate::text::{begins, same, starts_with};

verus! {

#[derive(Debug, Clone, Copy, PartialEq, Eq, Structural)]
pub enum SlashCommand {
    Help,
    Quit,
    Clear,
    Compact,
    Queue,
    Session,
    Provider,
    Model,
}

/// What people see of a command.
#[derive(Debug, Clone, Copy)]
pub struct CommandSpec {
    pub name: &'static str,
    pub description: &'static str,
    pub accepts_args: bool,
    pub command: SlashCommand,
}

#[verifier::ext_equal]
pub struct CommandInfo {
    pub name: Seq<char>,
    pub description: Seq<char>,
    pub accepts_args: bool,
    pub command: SlashCommand,
}

impl DeepView for CommandSpec {
    type V = CommandInfo;

    open spec fn deep_view(&self) -> CommandInfo {
        CommandInfo {
            name: self.name@,
            description: self.description@,
            accepts_args: self.accepts_args,
            command: self.command,
        }
    }
}

/// The command of each name.
pub open spec fn info_of(command: SlashCommand) -> CommandInfo {
    match command {
        SlashCommand::Model => CommandInfo {
            name: "model"@,
            description: "选择或输入模型"@,
            accepts_args: true,
            command,
        },
        SlashCommand::Provider => CommandInfo {
            name: "provider"@,
            description: "选择 provider(对话历史保留)"@,
            accepts_args: true,
            command,
        },
        SlashCommand::Session => CommandInfo {
            name: "session"@,
            description: "列出或恢复历史会话"@,
            accepts_args: true,
            command,
        },
        SlashCommand::Compact => CommandInfo {
            name: "compact"@,
            description: "压缩历史(摘要替代模型视图,事实保留)"@,
            accepts_args: false,
            command,
        },
        SlashCommand::Queue => CommandInfo {
            name: "queue"@,
            description: "排队后续任务(当前任务结束后执行)"@,
            accepts_args: true,
            command,
        },
        SlashCommand::Clear => CommandInfo {
            name: "clear"@,
            description: "清空会话"@,
            accepts_args: false,
            command,
        },
        SlashCommand::Help => CommandInfo {
            name: "help"@,
            description: "显示帮助"@,
            accepts_args: false,
            command,
        },
        SlashCommand::Quit => CommandInfo {
            name: "quit"@,
            description: "退出"@,
            accepts_args: false,
            command,
        },
    }
}

/// All commands, in the order in which they are offered.
pub open spec fn all_commands() -> Seq<CommandInfo> {
    seq![
        info_of(SlashCommand::Model),
        info_of(SlashCommand::Provider),
        info_of(SlashCommand::Session),
        info_of(SlashCommand::Compact),
        info_of(SlashCommand::Queue),
        info_of(SlashCommand::Clear),
        info_of(SlashCommand::Help),
        info_of(SlashCommand::Quit),
    ]
}

pub fn spec_of(command: SlashCommand) -> (s: CommandSpec)
    ensures
        s.deep_view() == info_of(command),
{
    match command {
        SlashCommand::Model => CommandSpec {
            name: "model",
            description: "选择或输入模型",
            accepts_args: true,
            command,
        },
        SlashCommand::Provider => CommandSpec {
            name: "provider",
            description: "选择 provider(对话历史保留)",
            accepts_args: true,
            command,
        },
        SlashCommand::Session => CommandSpec {
            name: "session",
            description: "列出或恢复历史会话",
            accepts_args: true,
            command,
        },
        SlashCommand::Compact => CommandSpec {
            name: "compact",
            description: "压缩历史(摘要替代模型视图,事实保留)",
            accepts_args: false,
            command,
        },
        SlashCommand::Queue => CommandSpec {
            name: "queue",
            description: "排队后续任务(当前任务结束后执行)",
            accepts_args: true,
            command,
        },
        SlashCommand::Clear => CommandSpec {
            name: "clear",
            description: "清空会话",
            accepts_args: false,
            command,
        },
        SlashCommand::Help => CommandSpec {
            name: "help",
            description: "显示帮助",
            accepts_args: false,
            command,
        },
        SlashCommand::Quit => CommandSpec {
            name: "quit",
            description: "退出",
            accepts_args: false,
            command,
        },
    }
}

fn list_commands() -> (v: Vec<CommandSpec>)
    ensures
        v.deep_view() == all_commands(),
{
    let mut v: Vec<CommandSpec> = empty();
    put(&mut v, spec_of(SlashCommand::Model));
    put(&mut v, spec_of(SlashCommand::Provider));
    put(&mut v, spec_of(SlashCommand::Session));
    put(&mut v, spec_of(SlashCommand::Compact));
    put(&mut v, spec_of(SlashCommand::Queue));
    put(&mut v, spec_of(SlashCommand::Clear));
    put(&mut v, spec_of(SlashCommand::Help));
    put(&mut v, spec_of(SlashCommand::Quit));
    assert(v.deep_view() =~= all_commands());
    v
}

/// The commands whose names begin like this.
pub open spec fn matching(commands: Seq<CommandInfo>, query: Seq<char>) -> Seq<CommandInfo>
    decreases commands.len(),
{
    if commands.len() == 0 {
        seq![]
    } else if begins(commands.last().name, query) {
        matching(commands.drop_last(), query).push(commands.last())
    } else {
        matching(commands.drop_last(), query)
    }
}

pub fn matches(query: &str) -> (out: Vec<CommandSpec>)
    ensures
        out.deep_view() == matching(all_commands(), query@),
{
    let commands = list_commands();
    let ghost all = commands.deep_view();
    let mut out: Vec<CommandSpec> = empty();
    let mut i: usize = 0;
    while i < commands.len()
        invariant
            i <= commands@.len(),
            all == commands.deep_view(),
            out.deep_view() == matching(all.take(i as int), query@),
        decreases commands@.len() - i,
    {
        proof {
            take_next(all, i as int);
        }
        assert(all[i as int] == commands@[i as int].deep_view());
        if starts_with(commands[i].name, query) {
            put(&mut out, commands[i]);
        }
        i = i + 1;
    }
    proof {
        take_all(all);
    }
    out
}

/// The command of a name.
pub open spec fn command_named(name: Seq<char>) -> Option<SlashCommand> {
    if name == "model"@ {
        Some(SlashCommand::Model)
    } else if name == "provider"@ {
        Some(SlashCommand::Provider)
    } else if name == "session"@ {
        Some(SlashCommand::Session)
    } else if name == "compact"@ {
        Some(SlashCommand::Compact)
    } else if name == "queue"@ {
        Some(SlashCommand::Queue)
    } else if name == "clear"@ {
        Some(SlashCommand::Clear)
    } else if name == "help"@ {
        Some(SlashCommand::Help)
    } else if name == "quit"@ {
        Some(SlashCommand::Quit)
    } else {
        None
    }
}

pub fn find(name: &str) -> (r: Option<SlashCommand>)
    ensures
        r == command_named(name@),
{
    if same(name, "model") {
        Some(SlashCommand::Model)
    } else if same(name, "provider") {
        Some(SlashCommand::Provider)
    } else if same(name, "session") {
        Some(SlashCommand::Session)
    } else if same(name, "compact") {
        Some(SlashCommand::Compact)
    } else if same(name, "queue") {
        Some(SlashCommand::Queue)
    } else if same(name, "clear") {
        Some(SlashCommand::Clear)
    } else if same(name, "help") {
        Some(SlashCommand::Help)
    } else if same(name, "quit") {
        Some(SlashCommand::Quit)
    } else {
        None
    }
}

/// The name that a command is offered under leads to the command.
pub proof fn law_names_lead_to_their_commands(command: SlashCommand)
    ensures
        command_named(info_of(command).name) == Some(command),
{
    reveal_strlit("model");
    reveal_strlit("provider");
    reveal_strlit("session");
    reveal_strlit("compact");
    reveal_strlit("queue");
    reveal_strlit("clear");
    reveal_strlit("help");
    reveal_strlit("quit");
    assert("model"@.len() == 5 && "model"@[0] == 'm');
    assert("provider"@.len() == 8 && "provider"@[0] == 'p');
    assert("session"@.len() == 7 && "session"@[0] == 's');
    assert("compact"@.len() == 7 && "compact"@[0] == 'c');
    assert("queue"@.len() == 5 && "queue"@[0] == 'q');
    assert("clear"@.len() == 5 && "clear"@[0] == 'c');
    assert("help"@.len() == 4 && "help"@[0] == 'h');
    assert("quit"@.len() == 4 && "quit"@[0] == 'q');
}

} // verus!
