use vstd::prelude::*;
use vstd::string::StringExecFns;
use crate::text::str_eq;

verus! {

#[verifier::external_type_specification]
#[verifier::external_body]
pub struct ExMismatchedQuotes(shellwords::MismatchedQuotes);

/// The words `shellwords::split` makes of a text, `None` where its quotes
/// do not match.
pub uninterp spec fn shell_split(text: Seq<char>) -> Option<Seq<Seq<char>>>;

/// `shellwords::split`: the words of a text as a Bourne shell splits them
/// (quotes and backslashes group and escape), or `MismatchedQuotes`. The
/// result is a function of the text alone, named `shell_split`.
#[verifier::external_body]
pub(crate) fn split_words(text: &str) -> (result: Result<Vec<String>, shellwords::MismatchedQuotes>)
    ensures
        match result {
            Ok(words) => shell_split(text@) == Some(words@.map_values(|w: String| w@)),
            Err(_) => shell_split(text@) is None,
        },
{
    shellwords::split(text)
}

/// A positional argument of a command: its name, whether it must be
/// given, and the values it accepts (any value when the list is empty).
#[derive(Clone, Debug)]
pub struct CommandArg {
    pub name: String,
    pub required: bool,
    pub choices: Vec<String>,
}

/// A command and its positional arguments, in order.
#[derive(Clone, Debug)]
pub struct CommandSpec {
    pub name: String,
    pub args: Vec<CommandArg>,
}

pub struct CommandArgModel {
    pub name: Seq<char>,
    pub required: bool,
    pub choices: Seq<Seq<char>>,
}

pub struct CommandSpecModel {
    pub name: Seq<char>,
    pub args: Seq<CommandArgModel>,
}

impl View for CommandArg {
    type V = CommandArgModel;

    open spec fn view(&self) -> CommandArgModel {
        CommandArgModel {
            name: self.name@,
            required: self.required,
            choices: self.choices@.map_values(|c: String| c@),
        }
    }
}

impl View for CommandSpec {
    type V = CommandSpecModel;

    open spec fn view(&self) -> CommandSpecModel {
        CommandSpecModel { name: self.name@, args: self.args@.map_values(|a: CommandArg| a@) }
    }
}

pub open spec fn table_view(table: Seq<CommandSpec>) -> Seq<CommandSpecModel> {
    table.map_values(|c: CommandSpec| c@)
}

pub open spec fn words_view(words: Seq<String>) -> Seq<Seq<char>> {
    words.map_values(|w: String| w@)
}

/// Why a command line was refused: a command or an argument the table does
/// not know (or a flag), or a required argument left out.
#[derive(Clone, Copy, Debug, PartialEq, Eq, Structural)]
pub enum CommandLineError {
    Invalid,
    MissingArgument,
}

/// A word read as a flag: a dash and at least one more character.
pub open spec fn is_flag(word: Seq<char>) -> bool {
    word.len() >= 2 && word[0] == '-'
}

/// The first command of the table with this name.
pub open spec fn command_index(table: Seq<CommandSpecModel>, name: Seq<char>, k: int) -> bool {
    &&& 0 <= k < table.len()
    &&& table[k].name == name
    &&& forall|j: int| 0 <= j < k ==> table[j].name != name
}

pub open spec fn has_command(table: Seq<CommandSpecModel>, name: Seq<char>) -> bool {
    exists|k: int| 0 <= k < table.len() && table[k].name == name
}

/// An argument given a value its list of choices does not hold.
pub open spec fn bad_choice(spec: CommandSpecModel, args: Seq<Seq<char>>) -> bool {
    exists|j: int| 0 <= j < args.len() && j < spec.args.len() && spec.args[j].choices.len() > 0
        && !spec.args[j].choices.contains(#[trigger] args[j])
}

/// A required argument left out.
pub open spec fn missing_required(spec: CommandSpecModel, args: Seq<Seq<char>>) -> bool {
    exists|j: int| args.len() <= j < spec.args.len() && (#[trigger] spec.args[j]).required
}

/// The positional words of a command's arguments, reading `--` (the first
/// one) as the end of flags: `None` when a flag comes before it.
pub open spec fn positionals(args: Seq<Seq<char>>, escaped: bool) -> Option<Seq<Seq<char>>>
    decreases args.len(),
{
    if args.len() == 0 {
        Some(Seq::empty())
    } else {
        let word = args[0];
        if !escaped && word == "--"@ {
            positionals(args.drop_first(), true)
        } else if !escaped && is_flag(word) {
            None
        } else {
            match positionals(args.drop_first(), escaped) {
                Some(rest) => Some(seq![word] + rest),
                None => None,
            }
        }
    }
}

/// The meaning of a command line: the first word names a command of the
/// table, the other words are its arguments in order. A first word that is
/// a flag, an unknown command, a flag before `--`, or extra arguments are
/// refused; then a required argument left out is reported as missing;
/// then a value outside an argument's choices is refused.
pub open spec fn spec_parse(table: Seq<CommandSpecModel>, words: Seq<Seq<char>>) -> Result<(int, Seq<Seq<char>>), CommandLineError> {
    if words.len() == 0 || is_flag(words[0]) || !has_command(table, words[0]) {
        Err(CommandLineError::Invalid)
    } else {
        let k = choose|k: int| command_index(table, words[0], k);
        match positionals(words.drop_first(), false) {
            None => Err(CommandLineError::Invalid),
            Some(args) => if args.len() > table[k].args.len() {
                Err(CommandLineError::Invalid)
            } else if missing_required(table[k], args) {
                Err(CommandLineError::MissingArgument)
            } else if bad_choice(table[k], args) {
                Err(CommandLineError::Invalid)
            } else {
                Ok((k, args))
            },
        }
    }
}

fn is_flag_word(word: &str) -> (flag: bool)
    ensures
        flag == is_flag(word@),
{
    word.unicode_len() >= 2 && word.get_char(0) == '-'
}

fn contains_word(choices: &Vec<String>, word: &String) -> (found: bool)
    ensures
        found == choices@.map_values(|c: String| c@).contains(word@),
{
    let ghost view = choices@.map_values(|c: String| c@);
    let mut i: usize = 0;
    while i < choices.len()
        invariant
            i <= choices.len(),
            view == choices@.map_values(|c: String| c@),
            forall|j: int| 0 <= j < i ==> view[j] != word@,
        decreases choices.len() - i,
    {
        if str_eq(choices[i].as_str(), word.as_str()) {
            assert(view[i as int] == word@);
            return true;
        }
        i += 1;
    }
    false
}

proof fn lemma_command_index_unique(table: Seq<CommandSpecModel>, name: Seq<char>, a: int, b: int)
    requires
        command_index(table, name, a),
        command_index(table, name, b),
    ensures
        a == b,
{
}

/// The first command of the table with this name.
fn find_command(table: &Vec<CommandSpec>, name: &str) -> (result: Option<usize>)
    ensures
        match result {
            Some(k) => command_index(table_view(table@), name@, k as int),
            None => !has_command(table_view(table@), name@),
        },
{
    let ghost t = table_view(table@);
    let mut k: usize = 0;
    while k < table.len()
        invariant
            k <= table.len(),
            t == table_view(table@),
            forall|j: int| 0 <= j < k ==> t[j].name != name@,
        decreases table.len() - k,
    {
        if str_eq(table[k].name.as_str(), name) {
            return Some(k);
        }
        k += 1;
    }
    None
}

/// The positional words after the command's name, or `None` when a flag
/// comes before `--`.
fn collect_positionals(words: &Vec<String>) -> (result: Option<Vec<String>>)
    requires
        words@.len() >= 1,
    ensures
        match positionals(words_view(words@).drop_first(), false) {
            Some(p) => result matches Some(r) && words_view(r@) == p,
            None => result is None,
        },
{
    let ghost w = words_view(words@);
    let ghost all = w.drop_first();
    let mut out: Vec<String> = Vec::new();
    let mut escaped = false;
    let mut j: usize = 1;
    proof {
        assert(all.skip(0) =~= all);
        assert(words_view(out@) =~= Seq::<Seq<char>>::empty());
        if let Some(r) = positionals(all, false) {
            assert(Seq::<Seq<char>>::empty() + r =~= r);
        }
    }
    while j < words.len()
        invariant
            1 <= j <= words.len(),
            w == words_view(words@),
            all == w.drop_first(),
            positionals(all, false) == match positionals(all.skip(j - 1), escaped) {
                Some(r) => Some(words_view(out@) + r),
                None => None::<Seq<Seq<char>>>,
            },
        decreases words.len() - j,
    {
        let ghost rest = all.skip(j - 1);
        assert(rest[0] == w[j as int]);
        assert(rest.drop_first() =~= all.skip(j as int));
        let word = &words[j];
        if !escaped && str_eq(word.as_str(), "--") {
            escaped = true;
        } else if !escaped && is_flag_word(word.as_str()) {
            return None;
        } else {
            let ghost before = words_view(out@);
            out.push(word.clone());
            assert(words_view(out@) =~= before + seq![word@]);
            assert(before + seq![word@] + positionals(all.skip(j as int), escaped).unwrap_or(Seq::empty())
                =~= before + (seq![word@] + positionals(all.skip(j as int), escaped).unwrap_or(Seq::empty())));
        }
        j += 1;
    }
    assert(all.skip(j - 1).len() == 0);
    assert(words_view(out@) + Seq::<Seq<char>>::empty() =~= words_view(out@));
    Some(out)
}

/// Reads a command line against a table of commands.
pub fn parse_command(table: &Vec<CommandSpec>, words: &Vec<String>) -> (result: Result<(usize, Vec<String>), CommandLineError>)
    ensures
        match spec_parse(table_view(table@), words_view(words@)) {
            Ok((k, args)) => result matches Ok((rk, rargs)) && rk == k && words_view(rargs@) == args,
            Err(e) => result == Err::<(usize, Vec<String>), CommandLineError>(e),
        },
        result matches Ok((k, args)) ==> k < table@.len() && args@.len() <= table_view(table@)[k as int].args.len()
            && !missing_required(table_view(table@)[k as int], words_view(args@)),
{
    let ghost t = table_view(table@);
    let ghost w = words_view(words@);
    if words.len() == 0 {
        return Err(CommandLineError::Invalid);
    }
    if is_flag_word(words[0].as_str()) {
        return Err(CommandLineError::Invalid);
    }
    let k = match find_command(table, words[0].as_str()) {
        Some(k) => k,
        None => return Err(CommandLineError::Invalid),
    };
    assert(command_index(t, w[0], k as int));
    proof {
        lemma_command_index_unique(t, w[0], k as int, choose|k: int| command_index(t, w[0], k));
    }
    let args = match collect_positionals(words) {
        Some(args) => args,
        None => return Err(CommandLineError::Invalid),
    };
    let spec = &table[k];
    let nargs = args.len();
    let ghost a = words_view(args@);
    let ghost s = t[k as int];
    assert(s == spec@);
    if nargs > spec.args.len() {
        return Err(CommandLineError::Invalid);
    }
    assert(spec_parse(t, w) == (if missing_required(s, a) {
        Err(CommandLineError::MissingArgument)
    } else if bad_choice(s, a) {
        Err(CommandLineError::Invalid)
    } else {
        Ok((k as int, a))
    }));
    let mut r: usize = nargs;
    while r < spec.args.len()
        invariant
            spec_parse(t, w) == (if missing_required(s, a) {
                Err(CommandLineError::MissingArgument)
            } else if bad_choice(s, a) {
                Err(CommandLineError::Invalid)
            } else {
                Ok((k as int, a))
            }),
            a == words_view(args@),
            t == table_view(table@),
            w == words_view(words@),
            nargs <= r <= spec.args.len(),
            nargs == a.len(),
            s == spec@,
            forall|q: int| nargs <= q < r ==> !(#[trigger] s.args[q]).required,
        decreases spec.args.len() - r,
    {
        assert(s.args[r as int] == spec.args@[r as int]@);
        if spec.args[r].required {
            assert(missing_required(s, a));
            return Err(CommandLineError::MissingArgument);
        }
        r += 1;
    }
    assert(!missing_required(s, a));
    let mut m: usize = 0;
    while m < nargs
        invariant
            spec_parse(t, w) == (if bad_choice(s, a) {
                Err(CommandLineError::Invalid)
            } else {
                Ok((k as int, a))
            }),
            t == table_view(table@),
            w == words_view(words@),
            m <= nargs,
            nargs == a.len(),
            nargs <= spec.args.len(),
            s == spec@,
            a == words_view(args@),
            args@.len() == nargs,
            forall|q: int| 0 <= q < m ==> !(s.args[q].choices.len() > 0 && !s.args[q].choices.contains(#[trigger] a[q])),
        decreases nargs - m,
    {
        let arg = &spec.args[m];
        assert(s.args[m as int] == arg@);
        assert(a[m as int] == args@[m as int]@);
        if arg.choices.len() > 0 && !contains_word(&arg.choices, &args[m]) {
            assert(bad_choice(s, a));
            return Err(CommandLineError::Invalid);
        }
        m += 1;
    }
    assert(!bad_choice(s, a));
    Ok((k, args))
}

/// The help line of a command: its name, then each argument, a left-out
/// one between brackets.
pub open spec fn help_args(args: Seq<CommandArgModel>) -> Seq<char>
    decreases args.len(),
{
    if args.len() == 0 {
        Seq::empty()
    } else {
        let a = args.last();
        help_args(args.drop_last()) + " "@ + if a.required { a.name } else { "["@ + a.name + "]"@ }
    }
}

pub open spec fn help_line(spec: CommandSpecModel) -> Seq<char> {
    spec.name + help_args(spec.args)
}

/// One help line per command of the table.
pub fn command_help_lines(table: &Vec<CommandSpec>) -> (lines: Vec<String>)
    ensures
        lines@.len() == table@.len(),
        forall|i: int| 0 <= i < table@.len() ==> #[trigger] lines@[i]@ == help_line(table@[i]@),
{
    let mut lines: Vec<String> = Vec::new();
    let mut i: usize = 0;
    while i < table.len()
        invariant
            i <= table.len(),
            lines@.len() == i,
            forall|j: int| 0 <= j < i ==> #[trigger] lines@[j]@ == help_line(table@[j]@),
        decreases table.len() - i,
    {
        let spec = &table[i];
        let ghost sv = spec@;
        let mut line = spec.name.clone();
        let mut k: usize = 0;
        while k < spec.args.len()
            invariant
                k <= spec.args.len(),
                sv == spec@,
                line@ == sv.name + help_args(sv.args.take(k as int)),
            decreases spec.args.len() - k,
        {
            let arg = &spec.args[k];
            assert(sv.args.take(k as int + 1).drop_last() =~= sv.args.take(k as int));
            assert(sv.args.take(k as int + 1).last() == arg@);
            line.append(" ");
            if arg.required {
                line.append(arg.name.as_str());
            } else {
                line.append("[");
                line.append(arg.name.as_str());
                line.append("]");
            }
            proof {
                let before = sv.name + help_args(sv.args.take(k as int));
                if arg.required {
                    assert(line@ =~= before + " "@ + arg.name@);
                } else {
                    assert(line@ =~= before + " "@ + ("["@ + arg.name@ + "]"@));
                }
            }
            k += 1;
        }
        assert(sv.args.take(k as int) =~= sv.args);
        lines.push(line);
        i += 1;
    }
    lines
}

/// A command argument with no list of choices.
pub fn arg(name: &str, required: bool) -> (a: CommandArg)
    ensures
        a@ == (CommandArgModel { name: name@, required, choices: Seq::empty() }),
{
    let a = CommandArg { name: String::from_str(name), required, choices: Vec::new() };
    assert(a@.choices =~= Seq::<Seq<char>>::empty());
    a
}

} // verus!
