//! The help text.

use vstd::prelude::*;
use vstd::string::*;

#[allow(unused_imports)]
use crate::cli::{initial, option_named};
#[allow(unused_imports)]
use crate::defaults::{builtin, DefaultsModel};
#[allow(unused_imports)]
use crate::text::{decimal, signed_decimal};

verus! {

/// The help text.
pub const HELP: &'static str = "用法: perf_probe <root|whole> [选项]
\n  root   固定 Train 根搜索耗时（每轮一次整根搜索；--rounds 多轮出中位数）
\n  whole  手写策略整局耗时批次（--runs N 局）
\n通用选项:
\n  --uma U            马娘 ID（默认读 bench_config.toml）
\n  --friend F         友人卡 idrank（默认读 bench_config.toml / 303054）
\n  --seed S           育成推进基础种子（默认读 bench_config.toml / 61444）
\n  --build NAME       preset build 名（默认 speed，与固定根探针同口径）
\n  --deck \"id1,..,id5[,friend]\"   自定义卡组（覆盖 --build）
\n  --label TEXT       输出行标签（跨 commit 脚本用版本名标记）
\nroot 专用:
\n  --turn T           目标回合（默认 60；32 也是常用固定根）
\n  --search-n N       每候选 rollout 数（默认取 game_config.toml 的 mcts.search_n）
\n  --rounds R         轮数（默认 1；>1 时另输出中位数行）
\n  --search-seed S    搜索种子（默认 61444，每轮 +round）
\nwhole 专用:
\n  --runs N           局数（默认 100）
\n  --help, -h         显示本帮助";

/// The text that explains the command line.
pub fn help_text() -> (r: &'static str)
    ensures
        r@ == HELP@,
{
    HELP
}

/// Whether `part` stands somewhere in `text`.
pub open spec fn occurs(part: Seq<char>, text: Seq<char>) -> bool {
    exists|i: int|
        0 <= i <= text.len() - part.len() && #[trigger] text.subrange(i, i + part.len()) == part
}

proof fn lemma_occurs(part: Seq<char>, text: Seq<char>, i: int)
    requires
        0 <= i <= text.len() - part.len(),
        text.subrange(i, i + part.len()) == part,
    ensures
        occurs(part, text),
{
}

/// Parts of the help text.
proof fn lemma_help_text()
    ensures
        occurs("\n  --"@ + "uma"@, HELP@),
        occurs("\n  --"@ + "friend"@, HELP@),
        occurs("\n  --"@ + "seed"@, HELP@),
        occurs("\n  --"@ + "build"@, HELP@),
        occurs("\n  --"@ + "deck"@, HELP@),
        occurs("\n  --"@ + "label"@, HELP@),
        occurs("\n  --"@ + "turn"@, HELP@),
        occurs("\n  --"@ + "search-n"@, HELP@),
        occurs("\n  --"@ + "rounds"@, HELP@),
        occurs("\n  --"@ + "search-seed"@, HELP@),
        occurs("\n  --"@ + "runs"@, HELP@),
        occurs("\n  --"@ + "help"@, HELP@),
        occurs("（默认读 bench_config.toml / 303054）"@, HELP@),
        occurs("（默认读 bench_config.toml / 61444）"@, HELP@),
        occurs("（默认 speed，"@, HELP@),
        occurs("（默认 60；"@, HELP@),
        occurs("（默认 1；"@, HELP@),
        occurs("（默认 61444，"@, HELP@),
        occurs("（默认 100）"@, HELP@),
{
    let text = HELP@;
    reveal_strlit(
        "用法: perf_probe <root|whole> [选项]
\n  root   固定 Train 根搜索耗时（每轮一次整根搜索；--rounds 多轮出中位数）
\n  whole  手写策略整局耗时批次（--runs N 局）
\n通用选项:
\n  --uma U            马娘 ID（默认读 bench_config.toml）
\n  --friend F         友人卡 idrank（默认读 bench_config.toml / 303054）
\n  --seed S           育成推进基础种子（默认读 bench_config.toml / 61444）
\n  --build NAME       preset build 名（默认 speed，与固定根探针同口径）
\n  --deck \"id1,..,id5[,friend]\"   自定义卡组（覆盖 --build）
\n  --label TEXT       输出行标签（跨 commit 脚本用版本名标记）
\nroot 专用:
\n  --turn T           目标回合（默认 60；32 也是常用固定根）
\n  --search-n N       每候选 rollout 数（默认取 game_config.toml 的 mcts.search_n）
\n  --rounds R         轮数（默认 1；>1 时另输出中位数行）
\n  --search-seed S    搜索种子（默认 61444，每轮 +round）
\nwhole 专用:
\n  --runs N           局数（默认 100）
\n  --help, -h         显示本帮助",
    );
    reveal_strlit("\n  --");
    reveal_strlit("uma");
    reveal_strlit("friend");
    reveal_strlit("seed");
    reveal_strlit("build");
    reveal_strlit("deck");
    reveal_strlit("label");
    reveal_strlit("turn");
    reveal_strlit("search-n");
    reveal_strlit("rounds");
    reveal_strlit("search-seed");
    reveal_strlit("runs");
    reveal_strlit("help");
    reveal_strlit("（默认读 bench_config.toml / 303054）");
    reveal_strlit("（默认读 bench_config.toml / 61444）");
    reveal_strlit("（默认 speed，");
    reveal_strlit("（默认 60；");
    reveal_strlit("（默认 1；");
    reveal_strlit("（默认 61444，");
    reveal_strlit("（默认 100）");
    assert(text.subrange(124, 132) =~= "\n  --"@ + "uma"@);
    lemma_occurs("\n  --"@ + "uma"@, text, 124);
    assert(text.subrange(175, 186) =~= "\n  --"@ + "friend"@);
    lemma_occurs("\n  --"@ + "friend"@, text, 175);
    assert(text.subrange(240, 249) =~= "\n  --"@ + "seed"@);
    lemma_occurs("\n  --"@ + "seed"@, text, 240);
    assert(text.subrange(302, 312) =~= "\n  --"@ + "build"@);
    lemma_occurs("\n  --"@ + "build"@, text, 302);
    assert(text.subrange(359, 368) =~= "\n  --"@ + "deck"@);
    lemma_occurs("\n  --"@ + "deck"@, text, 359);
    assert(text.subrange(411, 421) =~= "\n  --"@ + "label"@);
    lemma_occurs("\n  --"@ + "label"@, text, 411);
    assert(text.subrange(468, 477) =~= "\n  --"@ + "turn"@);
    lemma_occurs("\n  --"@ + "turn"@, text, 468);
    assert(text.subrange(513, 526) =~= "\n  --"@ + "search-n"@);
    lemma_occurs("\n  --"@ + "search-n"@, text, 513);
    assert(text.subrange(587, 598) =~= "\n  --"@ + "rounds"@);
    lemma_occurs("\n  --"@ + "rounds"@, text, 587);
    assert(text.subrange(630, 646) =~= "\n  --"@ + "search-seed"@);
    lemma_occurs("\n  --"@ + "search-seed"@, text, 630);
    assert(text.subrange(688, 697) =~= "\n  --"@ + "runs"@);
    lemma_occurs("\n  --"@ + "runs"@, text, 688);
    assert(text.subrange(721, 730) =~= "\n  --"@ + "help"@);
    lemma_occurs("\n  --"@ + "help"@, text, 721);
    assert(text.subrange(207, 239) =~= "（默认读 bench_config.toml / 303054）"@);
    lemma_occurs("（默认读 bench_config.toml / 303054）"@, text, 207);
    assert(text.subrange(270, 301) =~= "（默认读 bench_config.toml / 61444）"@);
    lemma_occurs("（默认读 bench_config.toml / 61444）"@, text, 270);
    assert(text.subrange(338, 348) =~= "（默认 speed，"@);
    lemma_occurs("（默认 speed，"@, text, 338);
    assert(text.subrange(494, 501) =~= "（默认 60；"@);
    lemma_occurs("（默认 60；"@, text, 494);
    assert(text.subrange(611, 617) =~= "（默认 1；"@);
    lemma_occurs("（默认 1；"@, text, 611);
    assert(text.subrange(656, 666) =~= "（默认 61444，"@);
    lemma_occurs("（默认 61444，"@, text, 656);
    assert(text.subrange(712, 720) =~= "（默认 100）"@);
    lemma_occurs("（默认 100）"@, text, 712);
}

/// The help text has a line for each option of the command line.
pub proof fn law_help_names_every_option(name: Seq<char>)
    requires
        option_named(name) is Some,
    ensures
        occurs("\n  --"@ + name, HELP@),
{
    lemma_help_text();
}

/// The help text tells the defaults that are used: the built-in friend card and seed,
/// and the settings of an empty command line.
pub proof fn law_help_tells_the_defaults(defaults: DefaultsModel)
    ensures
        ({
            let settings = initial(defaults);
            let file = "（默认读 bench_config.toml / "@;
            let fixed = "（默认 "@;
            &&& occurs(file + decimal(builtin().friend as nat) + "）"@, HELP@)
            &&& occurs(file + decimal(builtin().seed as nat) + "）"@, HELP@)
            &&& occurs(fixed + settings.build + "，"@, HELP@)
            &&& occurs(fixed + signed_decimal(settings.turn as int) + "；"@, HELP@)
            &&& occurs(fixed + decimal(settings.rounds as nat) + "；"@, HELP@)
            &&& occurs(fixed + decimal(settings.search_seed as nat) + "，"@, HELP@)
            &&& occurs(fixed + decimal(settings.runs as nat) + "）"@, HELP@)
        }),
{
    let settings = initial(defaults);
    let file = "（默认读 bench_config.toml / "@;
    let fixed = "（默认 "@;
    lemma_help_text();
    reveal_with_fuel(decimal, 6);
    reveal_strlit("（默认读 bench_config.toml / ");
    reveal_strlit("（默认 ");
    reveal_strlit("）");
    reveal_strlit("，");
    reveal_strlit("；");
    reveal_strlit("speed");
    reveal_strlit("（默认读 bench_config.toml / 303054）");
    reveal_strlit("（默认读 bench_config.toml / 61444）");
    reveal_strlit("（默认 speed，");
    reveal_strlit("（默认 60；");
    reveal_strlit("（默认 1；");
    reveal_strlit("（默认 61444，");
    reveal_strlit("（默认 100）");
    assert(decimal(303054) =~= seq!['3', '0', '3', '0', '5', '4']);
    assert(decimal(61444) =~= seq!['6', '1', '4', '4', '4']);
    assert(decimal(60) =~= seq!['6', '0']);
    assert(decimal(1) =~= seq!['1']);
    assert(decimal(100) =~= seq!['1', '0', '0']);
    assert(file + decimal(303054) + "）"@ =~= "（默认读 bench_config.toml / 303054）"@);
    assert(file + decimal(61444) + "）"@ =~= "（默认读 bench_config.toml / 61444）"@);
    assert(fixed + "speed"@ + "，"@ =~= "（默认 speed，"@);
    assert(fixed + decimal(60) + "；"@ =~= "（默认 60；"@);
    assert(fixed + decimal(1) + "；"@ =~= "（默认 1；"@);
    assert(fixed + decimal(61444) + "，"@ =~= "（默认 61444，"@);
    assert(fixed + decimal(100) + "）"@ =~= "（默认 100）"@);
}

} // verus!
