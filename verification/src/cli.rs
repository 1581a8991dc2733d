//! A run of the tool: the files named on the command line, the options, and
//! the report on what was read.

use crate::counter::{count, counts_of, naturals};
use crate::formatter::{format_line, wide_naturals, widened};
use crate::options::{resolved, CountOptions};
use crate::report::{
    added,
    column_width,
    failure_line,
    label_at,
    largest,
    report,
    report_lines,
    source_line,
    source_lines,
    total_line,
    totals,
    Outcome,
};
use crate::text::{decimal_length, joined, split_at_blanks, split_blanks, texts};
use clap::{Arg, ArgAction, Command};
use vstd::prelude::*;
use vstd::string::*;

verus! {

/// The files to count, in the order they were named, and what to count.
/// Without files the one source is the standard input.
pub struct Cli {
    pub files: Vec<String>,
    pub options: CountOptions,
}

/// Where a text is read from.
pub enum Source {
    /// The file of this name.
    File(String),
    /// The standard input.
    StandardInput,
}

impl Source {
    /// The name that the source's line ends with, if it has one.
    pub open spec fn label(self) -> Option<Seq<char>> {
        match self {
            Source::File(name) => Some(name@),
            Source::StandardInput => None,
        }
    }
}

/// What the parser of the command line found: the files in their order,
/// the four flags, and the places that it reports for the byte flag and
/// the character flag. The places only count where both flags are on.
pub struct ParsedArguments {
    pub files: Vec<String>,
    pub bytes: bool,
    pub lines: bool,
    pub characters: bool,
    pub words: bool,
    pub bytes_at: Option<usize>,
    pub characters_at: Option<usize>,
}

/// `ParsedArguments` with the files' names as texts.
pub struct Arguments {
    pub files: Seq<Seq<char>>,
    pub bytes: bool,
    pub lines: bool,
    pub characters: bool,
    pub words: bool,
    pub bytes_at: Option<usize>,
    pub characters_at: Option<usize>,
}

impl View for ParsedArguments {
    type V = Arguments;

    open spec fn view(&self) -> Arguments {
        Arguments {
            files: texts(self.files@),
            bytes: self.bytes,
            lines: self.lines,
            characters: self.characters,
            words: self.words,
            bytes_at: self.bytes_at,
            characters_at: self.characters_at,
        }
    }
}

/// A command line that the parser did not accept, or that asked for the
/// help or the version: what to print, whether on the standard error, and
/// the status to leave with.
pub struct UsageError {
    pub message: String,
    pub use_stderr: bool,
    pub exit_code: i32,
}

/// The options that the parsed arguments stand for.
pub open spec fn options_of(a: Arguments) -> CountOptions {
    resolved(a.bytes, a.lines, a.characters, a.words, a.bytes_at, a.characters_at)
}

/// clap's `Command`, the description of a command line, carried from
/// `build_command` to the parser as it is.
#[verifier::external_type_specification]
#[verifier::external_body]
pub struct ExCommand(Command);

/// Whether `command` is this tool's command: the flags `-c`, `-l`, `-m`
/// and `-w`, each on when given, and any number of files. Only
/// `build_command` says so of a command.
pub uninterp spec fn is_counting_command(command: Command) -> bool;

/// What clap's parser gives for this tool's command on `arguments`, the
/// first of which is the program's name: the files, the flags and the
/// places it reports for `-c` and `-m`, or nothing where it does not
/// accept them.
pub uninterp spec fn parsed_arguments(arguments: Seq<Seq<char>>) -> Option<Arguments>;

/// Builds this tool's command with clap's `Command::new`, `about`,
/// `author`, `version` and `arg`, and `Arg::new`, `short`, `action`, `help`
/// and `required`. The contract only marks the result as this tool's
/// command, which it is by definition.
#[verifier::external_body]
fn build_command() -> (command: Command)
    ensures
        is_counting_command(command),
{
    Command::new("ccwc")
        .about("Coding Challenges - WC Tool")
        .author("Alfian Akmal Hanantio")
        .version("1.0.0")
        .arg(Arg::new("c").short('c').action(ArgAction::SetTrue).required(false)
            .help("The number of bytes in each input file is written to the standard output."))
        .arg(Arg::new("l").short('l').action(ArgAction::SetTrue).required(false)
            .help("The number of lines in each input file is written to the standard output."))
        .arg(Arg::new("m").short('m').action(ArgAction::SetTrue).required(false)
            .help("The number of characters in each input file is written to the standard output. If the current locale does not support multibyte characters, this is equivalent to the -c option."))
        .arg(Arg::new("w").short('w').action(ArgAction::SetTrue).required(false)
            .help("The number of words in each input file is written to the standard output."))
        .arg(Arg::new("files").required(false).action(ArgAction::Append))
}

/// Parses `arguments` with clap's `Command::try_get_matches_from` and reads
/// the matches with `ArgMatches::get_many`, `get_flag` and `index_of`, and
/// an error with `Error::use_stderr`, `exit_code` and its `to_string`.
/// The contract claims that, for this tool's command, what the parser
/// finds depends on the arguments alone, and that an error comes back
/// exactly where it accepts nothing. What it finds is named, not stated;
/// of the error nothing is claimed.
#[verifier::external_body]
fn parse_arguments(command: Command, arguments: &Vec<String>) -> (r: Result<
    ParsedArguments,
    UsageError,
>)
    requires
        is_counting_command(command),
    ensures
        match r {
            Ok(p) => parsed_arguments(texts(arguments@)) == Some(p@),
            Err(_) => parsed_arguments(texts(arguments@)) is None,
        },
{
    match command.try_get_matches_from(arguments) {
        Err(e) => Err(UsageError { message: e.to_string(), use_stderr: e.use_stderr(), exit_code: e.exit_code() }),
        Ok(m) => Ok(ParsedArguments {
            files: m.get_many::<String>("files").unwrap_or_default().cloned().collect(),
            bytes: m.get_flag("c"),
            lines: m.get_flag("l"),
            characters: m.get_flag("m"),
            words: m.get_flag("w"),
            bytes_at: m.index_of("c"),
            characters_at: m.index_of("m"),
        }),
    }
}

/// Reads a command line: the program's name, flags and files, with one
/// blank between each two. The flags are `-c` for bytes, `-l` for lines,
/// `-m` for characters and `-w` for words. Fails where the parser does
/// not accept the line, and where the line asks for the help or the
/// version.
pub fn parse_command(cmd: String) -> (r: Result<Cli, UsageError>)
    ensures
        match r {
            Ok(cli) => parsed_arguments(split_at_blanks(cmd@)) matches Some(a)
                && cli.file_names() == a.files && cli.options == options_of(a)
                && cli.options.is_resolved(),
            Err(_) => parsed_arguments(split_at_blanks(cmd@)) is None,
        },
{
    let arguments = split_blanks(cmd.as_str());
    match parse_arguments(build_command(), &arguments) {
        Ok(parsed) => Ok(Cli::from_arguments(parsed)),
        Err(e) => Err(e),
    }
}

/// What was read, as texts.
pub open spec fn outcomes(contents: Seq<Result<String, String>>) -> Seq<Outcome> {
    Seq::new(
        contents.len(),
        |i: int|
            match contents[i] {
                Ok(text) => Ok(text@),
                Err(reason) => Err(reason@),
            },
    )
}

/// The counts with the sums so far added to them.
fn add_counts(current: &Vec<u128>, sums: &Vec<u128>, Ghost(bound): Ghost<int>) -> (next: Vec<u128>)
    requires
        0 <= bound,
        bound + usize::MAX <= u128::MAX,
        forall|k: int| 0 <= k < current@.len() ==> current@[k] <= usize::MAX,
        forall|k: int| 0 <= k < sums@.len() ==> sums@[k] <= bound,
    ensures
        wide_naturals(next@) == added(wide_naturals(current@), wide_naturals(sums@)),
        forall|k: int| 0 <= k < next@.len() ==> next@[k] <= bound + usize::MAX,
{
    let mut next: Vec<u128> = Vec::new();
    let mut k: usize = 0;
    while k < current.len()
        invariant
            k <= current.len(),
            next@.len() == k,
            0 <= bound,
            bound + usize::MAX <= u128::MAX,
            forall|j: int| 0 <= j < current@.len() ==> current@[j] <= usize::MAX,
            forall|j: int| 0 <= j < sums@.len() ==> sums@[j] <= bound,
            forall|j: int| 0 <= j < k ==> next@[j] <= bound + usize::MAX,
            forall|j: int|
                0 <= j < k ==> next@[j] == current@[j] + if j < sums@.len() {
                    sums@[j] as int
                } else {
                    0
                },
        decreases current.len() - k,
    {
        let so_far: u128 = if k < sums.len() {
            sums[k]
        } else {
            0
        };
        next.push(current[k] + so_far);
        k = k + 1;
    }
    assert(wide_naturals(next@) =~= added(wide_naturals(current@), wide_naturals(sums@)));
    next
}

/// The largest of the numbers; 0 where there is none.
fn largest_of(numbers: &Vec<u128>) -> (m: u128)
    ensures
        m == largest(wide_naturals(numbers@)),
{
    let ghost all = wide_naturals(numbers@);
    let mut m: u128 = 0;
    let mut i: usize = 0;
    while i < numbers.len()
        invariant
            i <= numbers.len(),
            all == wide_naturals(numbers@),
            m == largest(all.take(i as int)),
        decreases numbers.len() - i,
    {
        proof {
            assert(all.take(i + 1).drop_last() =~= all.take(i as int));
        }
        if numbers[i] > m {
            m = numbers[i];
        }
        i = i + 1;
    }
    assert(all.take(i as int) =~= all);
    m
}

impl Cli {
    /// The names of the files, as texts.
    pub open spec fn file_names(&self) -> Seq<Seq<char>> {
        texts(self.files@)
    }

    /// The sources to read, in order: the files, or the standard input
    /// where no file was named. The label of each is the one that its line
    /// in the report gets.
    pub fn sources(&self) -> (list: Vec<Source>)
        ensures
            list@.len() == if self.files@.len() == 0 {
                1
            } else {
                self.files@.len()
            },
            forall|i: int|
                0 <= i < list@.len() ==> (#[trigger] list@[i]).label() == label_at(
                    self.file_names(),
                    i,
                ),
    {
        let mut list: Vec<Source> = Vec::new();
        if self.files.len() == 0 {
            list.push(Source::StandardInput);
            return list;
        }
        let mut i: usize = 0;
        while i < self.files.len()
            invariant
                i <= self.files@.len(),
                list@.len() == i,
                forall|j: int|
                    0 <= j < i ==> (#[trigger] list@[j]).label() == label_at(self.file_names(), j),
            decreases self.files.len() - i,
        {
            list.push(Source::File(self.files[i].clone()));
            i = i + 1;
        }
        list
    }

    /// The run that the parsed arguments ask for. Without any flag it counts
    /// lines, words and bytes. Of `-c` and `-m`, where both were given, only
    /// the later one counts.
    pub fn from_arguments(parsed: ParsedArguments) -> (cli: Cli)
        ensures
            cli.files == parsed.files,
            cli.file_names() == parsed@.files,
            cli.options == options_of(parsed@),
            cli.options.is_resolved(),
    {
        let options = CountOptions::resolve(
            parsed.bytes,
            parsed.lines,
            parsed.characters,
            parsed.words,
            parsed.bytes_at,
            parsed.characters_at,
        );
        Cli { files: parsed.files, options }
    }

    /// Counts each source that could be read, and sums the counts.
    fn count_all(&self, contents: &Vec<Result<String, String>>) -> (r: (Vec<Vec<u128>>, Vec<u128>))
        ensures
            r.0@.len() == contents@.len(),
            forall|i: int|
                0 <= i < contents@.len() ==> match #[trigger] contents@[i] {
                    Ok(text) => wide_naturals(r.0@[i]@) == counts_of(text@, self.options),
                    Err(_) => true,
                },
            wide_naturals(r.1@) == totals(outcomes(contents@), self.options),
    {
        let ghost outs = outcomes(contents@);
        let mut each: Vec<Vec<u128>> = Vec::new();
        let mut sums: Vec<u128> = Vec::new();
        let mut i: usize = 0;
        assert(wide_naturals(sums@) =~= totals(outs.take(0), self.options));
        while i < contents.len()
            invariant
                i <= contents.len(),
                outs == outcomes(contents@),
                each@.len() == i,
                forall|j: int|
                    0 <= j < i ==> match #[trigger] contents@[j] {
                        Ok(text) => wide_naturals(each@[j]@) == counts_of(text@, self.options),
                        Err(_) => true,
                    },
                wide_naturals(sums@) == totals(outs.take(i as int), self.options),
                forall|k: int| 0 <= k < sums@.len() ==> sums@[k] <= i * usize::MAX,
            decreases contents.len() - i,
        {
            proof {
                assert(outs.take(i + 1).drop_last() =~= outs.take(i as int));
                assert(outs.take(i + 1).last() == outs[i as int]);
                assert(i * usize::MAX + usize::MAX <= u128::MAX) by (nonlinear_arith)
                    requires
                        0 <= i < usize::MAX,
                        usize::MAX <= 0xffff_ffff_ffff_ffff,
                        u128::MAX == 0xffff_ffff_ffff_ffff_ffff_ffff_ffff_ffff,
                ;
                assert((i + 1) * usize::MAX == i * usize::MAX + usize::MAX) by (nonlinear_arith);
            }
            match &contents[i] {
                Ok(text) => {
                    let counts = count(text.as_str(), &self.options);
                    let wide = widened(&counts);
                    assert forall|k: int| 0 <= k < wide@.len() implies wide@[k] <= usize::MAX by {
                        assert(wide_naturals(wide@)[k] == naturals(counts@)[k]);
                    }
                    sums = add_counts(&wide, &sums, Ghost(i * usize::MAX));
                    each.push(wide);
                },
                Err(_) => {
                    each.push(Vec::new());
                },
            }
            i = i + 1;
        }
        assert(outs.take(i as int) =~= outs);
        (each, sums)
    }

    /// Writes the report on what was read from the sources. `contents`
    /// holds, for each source in order, its text or the reason why it could
    /// not be read. Each source has one line: its counts and its name, or
    /// `wc: ` and the reason. With more than one source a last line gives
    /// the totals over the sources that could be read. All counts stand in
    /// columns as wide as the largest total is long.
    pub fn execute(&self, contents: &Vec<Result<String, String>>) -> (out: String)
        ensures
            out@ == report(self.file_names(), self.options, outcomes(contents@)),
    {
        let ghost outs = outcomes(contents@);
        let ghost names = self.file_names();
        let ghost lines = source_lines(names, self.options, outs);
        let (each, sums) = self.count_all(contents);
        let width = decimal_length(largest_of(&sums));
        let mut out = String::new();
        let mut i: usize = 0;
        assert(lines.take(0) =~= Seq::<Seq<char>>::empty());
        while i < contents.len()
            invariant
                i <= contents.len(),
                outs == outcomes(contents@),
                names == self.file_names(),
                lines == source_lines(names, self.options, outs),
                each@.len() == contents@.len(),
                forall|j: int|
                    0 <= j < contents@.len() ==> match #[trigger] contents@[j] {
                        Ok(text) => wide_naturals(each@[j]@) == counts_of(text@, self.options),
                        Err(_) => true,
                    },
                width == column_width(outs, self.options),
                out@ == joined(lines.take(i as int), seq!['\n']),
            decreases contents.len() - i,
        {
            let ghost before = out@;
            if i > 0 {
                out.append("\n");
            }
            let ghost middle = out@;
            match &contents[i] {
                Ok(_) => {
                    let line = if i < self.files.len() {
                        format_line(&each[i], Some(self.files[i].as_str()), width)
                    } else {
                        format_line(&each[i], None, width)
                    };
                    out.append(line.as_str());
                },
                Err(reason) => {
                    out.append("wc: ");
                    out.append(reason.as_str());
                    proof {
                        reveal_strlit("wc: ");
                        assert(out@ =~= middle + failure_line(reason@));
                    }
                },
            }
            proof {
                reveal_strlit("\n");
                let now = lines.take(i + 1);
                assert(now.drop_last() =~= lines.take(i as int));
                assert(now.last() == source_line(names, self.options, outs, i as int));
                assert(out@ == middle + now.last());
                if i > 0 {
                    assert(out@ =~= before + seq!['\n'] + now.last());
                } else {
                    assert(before =~= Seq::<char>::empty());
                    assert(out@ =~= now.last());
                }
            }
            i = i + 1;
        }
        assert(lines.take(i as int) =~= lines);
        if contents.len() > 1 {
            let last = format_line(&sums, Some("total"), width);
            out.append("\n");
            out.append(last.as_str());
            proof {
                reveal_strlit("\n");
                reveal_strlit("total");
                assert("total"@ =~= seq!['t', 'o', 't', 'a', 'l']);
                let all = report_lines(names, self.options, outs);
                assert(all.drop_last() =~= lines);
                assert(all.last() == total_line(self.options, outs));
                assert(out@ =~= joined(lines, seq!['\n']) + seq!['\n'] + all.last());
            }
        }
        out
    }
}

} // verus!
