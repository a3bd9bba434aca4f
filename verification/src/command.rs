//! Composition of the server's command line.

use vstd::prelude::*;

verus! {

/// The literal flag that announces the configuration file to the server.
pub open spec fn config_flag() -> Seq<char> {
    "-config"@
}

/// The argument vector of a launch: the executable, then the fixed arguments in
/// their order, then the configuration flag and the configuration path as one token.
pub open spec fn command_line(
    executable: Seq<char>,
    fixed_args: Seq<Seq<char>>,
    config_path: Seq<char>,
) -> Seq<Seq<char>> {
    seq![executable] + fixed_args + seq![config_flag(), config_path]
}

/// The argument vector holds the fixed arguments and three tokens more: it
/// starts with the executable, goes on with the fixed arguments in their order
/// and ends with the configuration flag and the configuration path.
pub proof fn lemma_command_line_shape(
    executable: Seq<char>,
    fixed_args: Seq<Seq<char>>,
    config_path: Seq<char>,
)
    ensures
        ({
            let line = command_line(executable, fixed_args, config_path);
            &&& line.len() == fixed_args.len() + 3
            &&& line[0] == executable
            &&& line.subrange(1, (1 + fixed_args.len()) as int) == fixed_args
            &&& line[line.len() - 2] == config_flag()
            &&& line[line.len() - 1] == config_path
        }),
{
    let line = command_line(executable, fixed_args, config_path);
    assert(line.subrange(1, (1 + fixed_args.len()) as int) =~= fixed_args);
}

/// Builds the argument vector `[executable] ++ fixed_args ++ ["-config", config_path]`.
pub fn build(executable_path: &str, fixed_args: &Vec<String>, config_path: &str) -> (argv: Vec<
    String,
>)
    ensures
        argv.deep_view() == command_line(executable_path@, fixed_args.deep_view(), config_path@),
{
    let mut argv: Vec<String> = Vec::new();
    argv.push(String::from_str(executable_path));
    assert(argv.deep_view() =~= seq![executable_path@] + fixed_args.deep_view().take(0));
    let mut i: usize = 0;
    while i < fixed_args.len()
        invariant
            i <= fixed_args.len(),
            argv.deep_view() =~= seq![executable_path@] + fixed_args.deep_view().take(i as int),
        decreases fixed_args.len() - i,
    {
        let ghost before = argv.deep_view();
        argv.push(fixed_args[i].clone());
        assert(argv.deep_view() =~= before.push(fixed_args[i as int]@));
        assert(fixed_args.deep_view().take(i + 1) =~= fixed_args.deep_view().take(i as int).push(
            fixed_args[i as int]@,
        ));
        i += 1;
    }
    argv.push(String::from_str("-config"));
    argv.push(String::from_str(config_path));
    assert(fixed_args.deep_view().take(i as int) =~= fixed_args.deep_view());
    argv
}

/// The fixed arguments of a stock installation: a frame rate limit of 120.
pub open spec fn stock_fixed_args() -> Seq<Seq<char>> {
    seq!["-maxFPS"@, "120"@]
}

/// The fixed arguments that a launch passes where the deployment names no others.
pub fn default_fixed_args() -> (args: Vec<String>)
    ensures
        args.deep_view() == stock_fixed_args(),
{
    let mut args: Vec<String> = Vec::new();
    args.push(String::from_str("-maxFPS"));
    args.push(String::from_str("120"));
    assert(args.deep_view() =~= stock_fixed_args());
    args
}

/// The tokens of a command line as one text, with a space between neighbours.
pub open spec fn shown_line(tokens: Seq<Seq<char>>) -> Seq<char>
    decreases tokens.len(),
{
    if tokens.len() == 0 {
        Seq::empty()
    } else if tokens.len() == 1 {
        tokens[0]
    } else {
        shown_line(tokens.drop_last()) + seq![' '] + tokens.last()
    }
}

/// The command line as it is shown before a launch: its tokens with a space
/// between neighbours, the last of them, the configuration path, in double quotes.
pub open spec fn preview_text(
    executable: Seq<char>,
    fixed_args: Seq<Seq<char>>,
    config_path: Seq<char>,
) -> Seq<char> {
    shown_line(command_line(executable, fixed_args, config_path).drop_last()) + seq![' ', '"']
        + config_path + seq!['"']
}

/// Renders the first `count` tokens as one text, with a space between neighbours.
pub fn show_tokens(tokens: &Vec<String>, count: usize) -> (text: String)
    requires
        count <= tokens.len(),
    ensures
        text@ == shown_line(tokens.deep_view().take(count as int)),
{
    let ghost all = tokens.deep_view();
    let mut text = String::new();
    let mut i: usize = 0;
    assert(all.take(0) =~= Seq::<Seq<char>>::empty());
    while i < count
        invariant
            all == tokens.deep_view(),
            i <= count <= tokens.len(),
            text@ == shown_line(all.take(i as int)),
        decreases count - i,
    {
        proof {
            reveal_strlit(" ");
            assert(" "@ =~= seq![' ']);
            assert(all.take(i + 1).drop_last() =~= all.take(i as int));
            assert(all.take(i + 1).last() == tokens[i as int]@);
        }
        if i > 0 {
            text.append(" ");
        }
        text.append(tokens[i].as_str());
        assert(text@ =~= shown_line(all.take(i + 1)));
        i += 1;
    }
    text
}

/// Renders a command line as one text, with a space between neighbours.
pub fn show_line(tokens: &Vec<String>) -> (text: String)
    ensures
        text@ == shown_line(tokens.deep_view()),
{
    assert(tokens.deep_view().take(tokens.len() as int) =~= tokens.deep_view());
    show_tokens(tokens, tokens.len())
}

/// Renders the command line of a launch for display, the configuration path
/// in double quotes. This text is not what the process is started with.
pub fn preview(executable_path: &str, fixed_args: &Vec<String>, config_path: &str) -> (text:
    String)
    ensures
        text@ == preview_text(executable_path@, fixed_args.deep_view(), config_path@),
{
    let argv = build(executable_path, fixed_args, config_path);
    let ghost line = command_line(executable_path@, fixed_args.deep_view(), config_path@);
    assert(line.take(argv.len() - 1) =~= line.drop_last());
    let mut text = show_tokens(&argv, argv.len() - 1);
    proof {
        reveal_strlit(" \"");
        reveal_strlit("\"");
        assert(" \""@ =~= seq![' ', '"']);
        assert("\""@ =~= seq!['"']);
    }
    text.append(" \"");
    text.append(config_path);
    text.append("\"");
    text
}

} // verus!
