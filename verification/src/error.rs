//! What can go wrong, and the message for each case.

use vstd::prelude::*;
use vstd::string::*;

use crate::numeral::IntFault;
#[allow(unused_imports)]
use crate::numeral::{law_decimal_stands_for_its_number, stands_for};
use crate::quote::{quote_char, quote_os_str, quote_str};
#[allow(unused_imports)]
use crate::quote::{quoted_char, quoted_os_str, quoted_str};
use crate::text::{push_decimal, push_signed};
#[allow(unused_imports)]
use crate::text::{decimal, join, signed_decimal};

verus! {

/// A failure of the probe.
#[derive(Debug)]
pub enum ProbeError {
    /// An entry of the custom deck is not a card id.
    DeckEntry { fault: IntFault },
    /// The custom deck has neither five nor six entries.
    DeckSize { found: usize, text: String },
    /// No preset build has the wanted name.
    UnknownBuild { build: String, names: Vec<String> },
    /// The training root was not reached within the step limit.
    StepLimit { target: i32 },
    /// The simulation went past the target turn.
    TurnPassed { target: i32, turn: i32, stage: String },
    /// The simulation ended before the training root.
    GameOver { target: i32 },
    /// A second positional argument.
    ExtraArgument { text: String },
    /// A long option that does not exist.
    UnknownLong { name: String },
    /// A short option that does not exist.
    UnknownShort { letter: char },
    /// The command line ends where the value of an option is due.
    MissingValue { option: String },
    /// The value of an option is not an integer of its type.
    BadValue { option: String, fault: IntFault },
    /// The positional argument names no subcommand.
    UnknownCommand { name: String },
}

/// `ProbeError` with its texts as sequences of characters.
pub enum ErrorModel {
    DeckEntry { fault: IntFault },
    DeckSize { found: nat, text: Seq<char> },
    UnknownBuild { build: Seq<char>, names: Seq<Seq<char>> },
    StepLimit { target: int },
    TurnPassed { target: int, turn: int, stage: Seq<char> },
    GameOver { target: int },
    ExtraArgument { text: Seq<char> },
    UnknownLong { name: Seq<char> },
    UnknownShort { letter: char },
    MissingValue { option: Seq<char> },
    BadValue { option: Seq<char>, fault: IntFault },
    UnknownCommand { name: Seq<char> },
}

/// The characters of each string.
pub open spec fn texts(v: Seq<String>) -> Seq<Seq<char>> {
    Seq::new(v.len(), |i: int| v[i]@)
}

impl View for ProbeError {
    type V = ErrorModel;

    open spec fn view(&self) -> ErrorModel {
        match *self {
            ProbeError::DeckEntry { fault } => ErrorModel::DeckEntry { fault },
            ProbeError::DeckSize { found, text } => ErrorModel::DeckSize {
                found: found as nat,
                text: text@,
            },
            ProbeError::UnknownBuild { build, names } => ErrorModel::UnknownBuild {
                build: build@,
                names: texts(names@),
            },
            ProbeError::StepLimit { target } => ErrorModel::StepLimit { target: target as int },
            ProbeError::TurnPassed { target, turn, stage } => ErrorModel::TurnPassed {
                target: target as int,
                turn: turn as int,
                stage: stage@,
            },
            ProbeError::GameOver { target } => ErrorModel::GameOver { target: target as int },
            ProbeError::ExtraArgument { text } => ErrorModel::ExtraArgument { text: text@ },
            ProbeError::UnknownLong { name } => ErrorModel::UnknownLong { name: name@ },
            ProbeError::UnknownShort { letter } => ErrorModel::UnknownShort { letter },
            ProbeError::MissingValue { option } => ErrorModel::MissingValue { option: option@ },
            ProbeError::BadValue { option, fault } => ErrorModel::BadValue {
                option: option@,
                fault,
            },
            ProbeError::UnknownCommand { name } => ErrorModel::UnknownCommand { name: name@ },
        }
    }
}

/// The wording for a text that is not an integer.
pub open spec fn fault_wording(fault: IntFault) -> Seq<char> {
    match fault {
        IntFault::Empty => "cannot parse integer from empty string"@,
        IntFault::InvalidDigit => "invalid digit found in string"@,
        IntFault::TooLarge => "number too large to fit in target type"@,
        IntFault::TooSmall => "number too small to fit in target type"@,
    }
}

/// The message for a failure.
pub open spec fn error_wording(e: ErrorModel) -> Seq<char> {
    match e {
        ErrorModel::DeckEntry { fault } => fault_wording(fault),
        ErrorModel::DeckSize { found, text } => {
            "--deck 需要 5 个支援卡 idrank（友人可省略）或 6 个含友人，收到 "@ + decimal(found) + " 个: "@
                + text
        },
        ErrorModel::UnknownBuild { build, names } => {
            "build 不存在: "@ + build + "（可选: "@ + join(names, ", "@) + "）"@
        },
        ErrorModel::StepLimit { target } => {
            "推进超过 1000 步仍未到达目标训练根（turn="@ + signed_decimal(target) + "）"@
        },
        ErrorModel::TurnPassed { target, turn, stage } => {
            "回合越过目标（target="@ + signed_decimal(target) + "，当前 turn="@ + signed_decimal(turn)
                + " stage="@ + stage + "）——该回合不是训练决策点"@
        },
        ErrorModel::GameOver { target } => {
            "推进到终局仍未遇到 turn="@ + signed_decimal(target) + " 的 Train 决策点（候选需 >1）"@
        },
        ErrorModel::ExtraArgument { text } => {
            "多余的位置参数: "@ + quoted_os_str(text) + "（用法: perf_probe <root|whole> ...）"@
        },
        ErrorModel::UnknownLong { name } => {
            "未知参数: Long("@ + quoted_str(name) + ")（--help 查看用法）"@
        },
        ErrorModel::UnknownShort { letter } => {
            "未知参数: Short("@ + quoted_char(letter) + ")（--help 查看用法）"@
        },
        ErrorModel::MissingValue { option } => {
            "missing argument for option '--"@ + option + "'"@
        },
        ErrorModel::BadValue { option, fault } => "--"@ + option + ": "@ + fault_wording(fault),
        ErrorModel::UnknownCommand { name } => {
            "未知子命令: "@ + quoted_str(name) + "（可用 root / whole，--help 查看用法）"@
        },
    }
}

impl IntFault {
    /// The wording for this fault.
    pub fn message(&self) -> (r: &'static str)
        ensures
            r@ == fault_wording(*self),
    {
        match self {
            IntFault::Empty => "cannot parse integer from empty string",
            IntFault::InvalidDigit => "invalid digit found in string",
            IntFault::TooLarge => "number too large to fit in target type",
            IntFault::TooSmall => "number too small to fit in target type",
        }
    }
}

/// Appends the strings of `names` to `out`, separated by a comma and a space.
fn push_joined(out: &mut String, names: &Vec<String>)
    ensures
        final(out)@ == old(out)@ + join(texts(names@), ", "@),
{
    let ghost all = texts(names@);
    let n: usize = names.len();
    let mut i: usize = 0;
    while i < n
        invariant
            n == names@.len(),
            i <= n,
            all == texts(names@),
            out@ == old(out)@ + join(all.take(i as int), ", "@),
        decreases n - i,
    {
        proof {
            let longer = all.take(i as int + 1);
            assert(longer.drop_last() == all.take(i as int));
            assert(longer.last() == names@[i as int]@);
        }
        if i > 0 {
            out.append(", ");
        }
        out.append(names[i].as_str());
        i = i + 1;
    }
    assert(all.take(n as int) == all);
}

impl ProbeError {
    /// The message for this failure.
    pub fn message(&self) -> (r: String)
        ensures
            r@ == error_wording(self@),
    {
        let mut out = String::new();
        match self {
            ProbeError::DeckEntry { fault } => {
                out.append(fault.message());
            },
            ProbeError::DeckSize { found, text } => {
                out.append("--deck 需要 5 个支援卡 idrank（友人可省略）或 6 个含友人，收到 ");
                push_decimal(&mut out, *found as u64);
                out.append(" 个: ");
                out.append(text.as_str());
            },
            ProbeError::UnknownBuild { build, names } => {
                out.append("build 不存在: ");
                out.append(build.as_str());
                out.append("（可选: ");
                push_joined(&mut out, names);
                out.append("）");
            },
            ProbeError::StepLimit { target } => {
                out.append("推进超过 1000 步仍未到达目标训练根（turn=");
                push_signed(&mut out, *target as i64);
                out.append("）");
            },
            ProbeError::TurnPassed { target, turn, stage } => {
                out.append("回合越过目标（target=");
                push_signed(&mut out, *target as i64);
                out.append("，当前 turn=");
                push_signed(&mut out, *turn as i64);
                out.append(" stage=");
                out.append(stage.as_str());
                out.append("）——该回合不是训练决策点");
            },
            ProbeError::GameOver { target } => {
                out.append("推进到终局仍未遇到 turn=");
                push_signed(&mut out, *target as i64);
                out.append(" 的 Train 决策点（候选需 >1）");
            },
            ProbeError::ExtraArgument { text } => {
                out.append("多余的位置参数: ");
                out.append(quote_os_str(text.as_str()).as_str());
                out.append("（用法: perf_probe <root|whole> ...）");
            },
            ProbeError::UnknownLong { name } => {
                out.append("未知参数: Long(");
                out.append(quote_str(name.as_str()).as_str());
                out.append(")（--help 查看用法）");
            },
            ProbeError::UnknownShort { letter } => {
                out.append("未知参数: Short(");
                out.append(quote_char(*letter).as_str());
                out.append(")（--help 查看用法）");
            },
            ProbeError::MissingValue { option } => {
                out.append("missing argument for option '--");
                out.append(option.as_str());
                out.append("'");
            },
            ProbeError::BadValue { option, fault } => {
                out.append("--");
                out.append(option.as_str());
                out.append(": ");
                out.append(fault.message());
            },
            ProbeError::UnknownCommand { name } => {
                out.append("未知子命令: ");
                out.append(quote_str(name.as_str()).as_str());
                out.append("（可用 root / whole，--help 查看用法）");
            },
        }
        out
    }
}

/// The texts of strings are their characters, one text for each string, in order.
pub proof fn law_texts_are_the_strings(v: Seq<String>, i: int)
    ensures
        texts(v).len() == v.len(),
        0 <= i < v.len() ==> texts(v)[i] == v[i]@,
{
}

/// Each of the four faults of a numeral has a wording of its own.
pub proof fn law_faults_are_told_apart(a: IntFault, b: IntFault)
    ensures
        fault_wording(IntFault::Empty) == "cannot parse integer from empty string"@,
        fault_wording(IntFault::InvalidDigit) == "invalid digit found in string"@,
        fault_wording(IntFault::TooLarge) == "number too large to fit in target type"@,
        fault_wording(IntFault::TooSmall) == "number too small to fit in target type"@,
        a != b ==> fault_wording(a) != fault_wording(b),
{
    reveal_strlit("cannot parse integer from empty string");
    reveal_strlit("invalid digit found in string");
    reveal_strlit("number too large to fit in target type");
    reveal_strlit("number too small to fit in target type");
    assert("cannot parse integer from empty string"@[0] == 'c');
    assert("invalid digit found in string"@[0] == 'i');
    assert("number too large to fit in target type"@[11] == 'l');
    assert("number too small to fit in target type"@[0] == 'n');
    assert("number too large to fit in target type"@[0] == 'n');
    assert("number too small to fit in target type"@[11] == 's');
}

/// The message for a custom deck tells what is wrong with the entry, or how many entries
/// there are and the text that holds them; the one for an unknown build tells its name
/// and the names there are.
pub proof fn law_deck_messages_tell_the_deck(e: ProbeError)
    ensures
        e matches ProbeError::DeckEntry { fault } ==> error_wording(e@) == fault_wording(fault),
        e matches ProbeError::DeckSize { found, text } ==> exists|count: Seq<char>|
            #[trigger] stands_for(count, found as int) && error_wording(e@)
                == "--deck 需要 5 个支援卡 idrank（友人可省略）或 6 个含友人，收到 "@ + count + " 个: "@ + text@,
        e matches ProbeError::UnknownBuild { build, names } ==> error_wording(e@) == "build 不存在: "@
            + build@ + "（可选: "@ + join(texts(names@), ", "@) + "）"@,
{
    if let ProbeError::DeckSize { found, text } = e {
        law_decimal_stands_for_its_number(found as int, 0);
        assert(stands_for(decimal(found as nat), found as int));
    }
}

/// The message for a walk that fails tells its target turn, and the turn and the stage
/// where it has gone past, in numbers that are read back.
pub proof fn law_walk_messages_tell_the_turns(e: ProbeError)
    ensures
        e matches ProbeError::StepLimit { target } ==> exists|wanted: Seq<char>|
            #[trigger] stands_for(wanted, target as int) && error_wording(e@)
                == "推进超过 1000 步仍未到达目标训练根（turn="@ + wanted + "）"@,
        e matches ProbeError::TurnPassed { target, turn, stage } ==> exists|
            wanted: Seq<char>,
            now: Seq<char>,
        |
            #![trigger stands_for(wanted, target as int), stands_for(now, turn as int)]
            stands_for(wanted, target as int) && stands_for(now, turn as int) && error_wording(e@)
                == "回合越过目标（target="@ + wanted + "，当前 turn="@ + now + " stage="@ + stage@
                + "）——该回合不是训练决策点"@,
        e matches ProbeError::GameOver { target } ==> exists|wanted: Seq<char>|
            #[trigger] stands_for(wanted, target as int) && error_wording(e@)
                == "推进到终局仍未遇到 turn="@ + wanted + " 的 Train 决策点（候选需 >1）"@,
{
    match e {
        ProbeError::StepLimit { target } => {
            law_decimal_stands_for_its_number(target as int, 0);
            assert(stands_for(signed_decimal(target as int), target as int));
        },
        ProbeError::TurnPassed { target, turn, stage } => {
            law_decimal_stands_for_its_number(target as int, 0);
            law_decimal_stands_for_its_number(turn as int, 0);
            assert(stands_for(signed_decimal(target as int), target as int));
            assert(stands_for(signed_decimal(turn as int), turn as int));
        },
        ProbeError::GameOver { target } => {
            law_decimal_stands_for_its_number(target as int, 0);
            assert(stands_for(signed_decimal(target as int), target as int));
        },
        _ => {},
    }
}

/// The message for a command line that is wrong tells the argument, the option or the
/// subcommand at fault, and what is wrong with the value of an option.
pub proof fn law_command_line_messages_tell_the_argument(e: ProbeError)
    ensures
        e matches ProbeError::ExtraArgument { text } ==> error_wording(e@) == "多余的位置参数: "@
            + quoted_os_str(text@) + "（用法: perf_probe <root|whole> ...）"@,
        e matches ProbeError::UnknownLong { name } ==> error_wording(e@) == "未知参数: Long("@
            + quoted_str(name@) + ")（--help 查看用法）"@,
        e matches ProbeError::UnknownShort { letter } ==> error_wording(e@) == "未知参数: Short("@
            + quoted_char(letter) + ")（--help 查看用法）"@,
        e matches ProbeError::MissingValue { option } ==> error_wording(e@)
            == "missing argument for option '--"@ + option@ + "'"@,
        e matches ProbeError::BadValue { option, fault } ==> error_wording(e@) == "--"@ + option@
            + ": "@ + fault_wording(fault),
        e matches ProbeError::UnknownCommand { name } ==> error_wording(e@) == "未知子命令: "@
            + quoted_str(name@) + "（可用 root / whole，--help 查看用法）"@,
{
}

} // verus!
