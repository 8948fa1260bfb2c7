//! The arguments of the command line: source files, and options with their
//! values.

use crate::logging::level::LogLevel;
use crate::logging::log::{Log, LogView};
use crate::logging::logger::{has_error, Logger};
use crate::text::concat;
use vstd::prelude::*;

verus! {

/// What a warning or an error about the arguments advises.
pub const HELP_HINT: &'static str = "Run again, with the option flag '-h' to get the help page";

/// The map that `entries` stands for: each key with the value that was
/// entered last under it.
pub open spec fn dict_of(entries: Seq<(String, String)>) -> Map<Seq<char>, Seq<char>>
    decreases entries.len(),
{
    if entries.len() == 0 {
        Map::empty()
    } else {
        dict_of(entries.drop_last()).insert(entries.last().0@, entries.last().1@)
    }
}

/// A key is in the map as soon as one entry carries it, and the map gives
/// the value of the last such entry.
pub proof fn lemma_dict_of(entries: Seq<(String, String)>, key: Seq<char>, last: int)
    requires
        0 <= last < entries.len(),
        entries[last].0@ == key,
        forall|k: int| last < k < entries.len() ==> entries[k].0@ != key,
    ensures
        dict_of(entries).dom().contains(key),
        dict_of(entries)[key] == entries[last].1@,
    decreases entries.len(),
{
    if last < entries.len() - 1 {
        lemma_dict_of(entries.drop_last(), key, last);
    }
}

/// A key that no entry carries is not in the map.
pub proof fn lemma_dict_without(entries: Seq<(String, String)>, key: Seq<char>)
    requires
        forall|k: int| 0 <= k < entries.len() ==> entries[k].0@ != key,
    ensures
        !dict_of(entries).dom().contains(key),
    decreases entries.len(),
{
    if entries.len() > 0 {
        lemma_dict_without(entries.drop_last(), key);
    }
}

/// Options by their flags.
#[derive(Debug, PartialEq, Eq)]
pub struct Dict {
    pub entries: Vec<(String, String)>,
}

impl View for Dict {
    type V = Map<Seq<char>, Seq<char>>;

    open spec fn view(&self) -> Map<Seq<char>, Seq<char>> {
        dict_of(self.entries@)
    }
}

impl Clone for Dict {
    fn clone(&self) -> (copy: Self)
        ensures
            copy@ == self@,
    {
        let mut entries: Vec<(String, String)> = Vec::new();
        let mut i: usize = 0;
        while i < self.entries.len()
            invariant
                i <= self.entries.len(),
                entries.len() == i,
                forall|k: int| 0 <= k < i ==> (#[trigger] entries[k]) == self.entries[k],
            decreases self.entries.len() - i,
        {
            entries.push((self.entries[i].0.clone(), self.entries[i].1.clone()));
            i += 1;
        }
        assert(entries@ =~= self.entries@);
        Dict { entries }
    }
}

/// The text of an option flag: a hyphen and the letter.
pub open spec fn flag_text(flag: char) -> Seq<char> {
    seq!['-', flag]
}

impl Dict {
    /// The map without any key.
    pub fn new() -> (dict: Dict)
        ensures
            dict@ == Map::<Seq<char>, Seq<char>>::empty(),
    {
        Dict { entries: Vec::new() }
    }

    /// Gives `key` the value `value`.
    pub fn insert(&mut self, key: String, value: String)
        ensures
            final(self)@ == old(self)@.insert(key@, value@),
    {
        self.entries.push((key, value));
        assert(self.entries@.drop_last() =~= old(self).entries@);
    }

    /// Whether entry number `index` is the first under its key.
    pub fn is_first(&self, index: usize) -> (first: bool)
        requires
            index < self.entries.len(),
        ensures
            first == is_first_entry(self.entries@, index as int),
    {
        let mut k: usize = 0;
        while k < index
            invariant
                k <= index < self.entries.len(),
                forall|j: int| 0 <= j < k ==> (#[trigger] self.entries[j]).0@ != self.entries[index as int].0@,
            decreases index - k,
        {
            if self.entries[k].0 == self.entries[index].0 {
                return false;
            }
            k += 1;
        }
        true
    }

    /// The value of the option with the letter `flag`, if it was given.
    pub fn get_flag(&self, flag: char) -> (found: Option<&String>)
        ensures
            match found {
                Some(value) => self@.dom().contains(flag_text(flag)) && value@ == self@[flag_text(
                    flag,
                )],
                None => !self@.dom().contains(flag_text(flag)),
            },
    {
        let mut i: usize = self.entries.len();
        while i > 0
            invariant
                i <= self.entries.len(),
                forall|k: int|
                    i <= k < self.entries.len() ==> self.entries[k].0@ != flag_text(flag),
            decreases i,
        {
            i -= 1;
            let key = self.entries[i].0.as_str();
            if key.unicode_len() == 2 && key.get_char(0) == '-' && key.get_char(1) == flag {
                proof {
                    assert(key@ =~= flag_text(flag));
                    lemma_dict_of(self.entries@, flag_text(flag), i as int);
                }
                return Some(&self.entries[i].1);
            }
        }
        proof {
            lemma_dict_without(self.entries@, flag_text(flag));
        }
        None
    }
}

/// Whether `arg` is the flag of an option: it starts with a hyphen.
pub open spec fn is_flag(arg: Seq<char>) -> bool {
    arg.len() > 0 && arg[0] == '-'
}

/// Whether the letter of the flag `flag` names an option.
pub open spec fn is_known_flag(flag: Seq<char>) -> bool {
    flag.len() >= 2 && (flag[1] == 'h' || flag[1] == 'l' || flag[1] == 'p' || flag[1] == 'o'
        || flag[1] == 'd' || flag[1] == 'a')
}

/// How far the arguments are read.
pub struct Reading {
    /// The arguments that are neither a flag nor the value of one.
    pub sources: Seq<Seq<char>>,
    /// The options that were given.
    pub options: Map<Seq<char>, Seq<char>>,
    /// The flag that was read last.
    pub key: Seq<char>,
    /// Whether the next argument is the value of that flag.
    pub previous_is_option: bool,
}

/// The reading after one more argument. A flag is entered at once, with an
/// empty value; the argument behind it, unless it is a flag too, becomes
/// its value; every other argument is a source.
pub open spec fn read_one(r: Reading, arg: Seq<char>) -> Reading {
    if is_flag(arg) {
        Reading {
            options: r.options.insert(arg, Seq::empty()),
            key: arg,
            previous_is_option: true,
            ..r
        }
    } else if r.previous_is_option {
        Reading { options: r.options.insert(r.key, arg), previous_is_option: false, ..r }
    } else {
        Reading { sources: r.sources.push(arg), ..r }
    }
}

/// The reading after all of `args`.
pub open spec fn read_all(r: Reading, args: Seq<Seq<char>>) -> Reading
    decreases args.len(),
{
    if args.len() == 0 {
        r
    } else {
        read_one(read_all(r, args.drop_last()), args.last())
    }
}

/// The sources of a command line: the arguments that are neither a flag
/// nor the value of one, without the first of them, which names the
/// program.
pub open spec fn sources_of(r: Reading) -> Seq<Seq<char>> {
    if r.sources.len() == 0 {
        r.sources
    } else {
        r.sources.subrange(1, r.sources.len() as int)
    }
}

/// The error for a command line without arguments.
pub open spec fn no_arguments_error() -> LogView {
    LogView {
        level: LogLevel::Error,
        title: "No given arguments"@,
        cause: Seq::empty(),
        message: Seq::empty(),
        hint: HELP_HINT@,
    }
}

/// The warning for a flag that names no option.
pub open spec fn ignored_flag_warning(flag: Seq<char>) -> LogView {
    LogView {
        level: LogLevel::Warning,
        title: "Ignored option flag"@,
        cause: Seq::empty(),
        message: "The given option flag '"@ + flag + "' does not match with any valid flag"@,
        hint: HELP_HINT@,
    }
}

/// Whether entry number `index` of `entries` is the first under its key.
pub open spec fn is_first_entry(entries: Seq<(String, String)>, index: int) -> bool {
    forall|k: int| 0 <= k < index ==> (#[trigger] entries[k]).0@ != entries[index].0@
}

/// The warnings about the first `count` entries of `entries`: one for
/// each flag that names no option, where it is given first.
pub open spec fn flag_warnings(entries: Seq<(String, String)>, count: int) -> Seq<LogView>
    decreases count,
{
    if count <= 0 {
        Seq::empty()
    } else if is_first_entry(entries, count - 1) && !is_known_flag(entries[count - 1].0@) {
        flag_warnings(entries, count - 1).push(ignored_flag_warning(entries[count - 1].0@))
    } else {
        flag_warnings(entries, count - 1)
    }
}

/// The arguments of the command line, and what was read from them.
#[derive(Debug)]
pub struct Args {
    pub sys_args: Vec<String>,
    pub sources: Vec<String>,
    pub options: Dict,
    /// Whether the argument read last is a flag.
    pub previous_is_option: bool,
    /// Whether the check before the reading has been made.
    pub check_step_1: bool,
}

impl Args {
    /// The reading that this value holds, with `key` as the flag read
    /// last.
    pub open spec fn reading(&self, key: Seq<char>) -> Reading {
        Reading {
            sources: self.sources.deep_view(),
            options: self.options@,
            key,
            previous_is_option: self.previous_is_option,
        }
    }

    /// The arguments `sys_args`, of which nothing is read yet.
    pub fn new(sys_args: Vec<String>) -> (args: Args)
        ensures
            args.sys_args == sys_args,
            args.sources@.len() == 0,
            args.options@ == Map::<Seq<char>, Seq<char>>::empty(),
            !args.previous_is_option,
            !args.check_step_1,
    {
        Args {
            sys_args,
            sources: Vec::new(),
            options: Dict::new(),
            previous_is_option: false,
            check_step_1: false,
        }
    }

    /// Checks the arguments and reads them. Where no argument is given the
    /// error comes back and nothing is read; else the warnings come back,
    /// one for each flag that names no option.
    pub fn run(&mut self) -> (result: Result<Logger, Logger>)
        ensures
            !old(self).check_step_1 && old(self).sys_args.len() == 1 ==> result is Err
                && result->Err_0@ == seq![no_arguments_error()] && *final(self) == (Args {
                check_step_1: true,
                ..*old(self)
            }),
            final(self).sys_args == old(self).sys_args,
            final(self).check_step_1,
            old(self).check_step_1 || old(self).sys_args.len() != 1 ==> result is Ok
                && result->Ok_0@ == flag_warnings(
                final(self).options.entries@,
                final(self).options.entries@.len() as int,
            ) && final(self).reading(Seq::empty()) == (Reading {
                sources: sources_of(
                    read_all(old(self).reading(Seq::empty()), old(self).sys_args.deep_view()),
                ),
                key: Seq::empty(),
                ..read_all(old(self).reading(Seq::empty()), old(self).sys_args.deep_view())
            }),
    {
        if !self.check_step_1 {
            let first = self.check();
            if first.has_error() {
                return Err(first);
            }
            assert(first@.len() > 0 ==> first@[0].level == LogLevel::Error);
        }
        Ok(self.parse())
    }

    /// Checks the arguments. Before the reading: an error where no
    /// argument is given. After the reading: a warning for each flag that
    /// names no option, in the order in which the flags were first given.
    pub fn check(&mut self) -> (logger: Logger)
        ensures
            final(self).check_step_1,
            final(self).sys_args == old(self).sys_args,
            final(self).sources == old(self).sources,
            final(self).options == old(self).options,
            final(self).previous_is_option == old(self).previous_is_option,
            !old(self).check_step_1 ==> logger@ == if old(self).sys_args.len() == 1 {
                seq![no_arguments_error()]
            } else {
                Seq::<LogView>::empty()
            },
            old(self).check_step_1 ==> logger@ == flag_warnings(
                old(self).options.entries@,
                old(self).options.entries@.len() as int,
            ),
    {
        let mut logger = Logger::new();
        if !self.check_step_1 {
            if self.sys_args.len() == 1 {
                let mut log = Log::new(
                    LogLevel::Error,
                    String::from_str("No given arguments"),
                    String::new(),
                );
                let log = log.add_hint(String::from_str(HELP_HINT));
                assert(log@.hint =~= HELP_HINT@);
                logger.add_log(log);
                assert(logger@ =~= seq![no_arguments_error()]);
            }
            self.check_step_1 = true;
            return logger;
        }
        let mut i: usize = 0;
        while i < self.options.entries.len()
            invariant
                i <= self.options.entries.len(),
                logger@ == flag_warnings(self.options.entries@, i as int),
                *self == (Args { check_step_1: true, ..*old(self) }),
            decreases self.options.entries.len() - i,
        {
            let option_flag = &self.options.entries[i].0;
            if self.options.is_first(i) && !Args::is_known(option_flag) {
                let mut message = concat("The given option flag '", option_flag.as_str());
                message.append("' does not match with any valid flag");
                let mut log = Log::new(
                    LogLevel::Warning,
                    String::from_str("Ignored option flag"),
                    message,
                );
                let log = log.add_hint(String::from_str(HELP_HINT));
                assert(log@.hint =~= HELP_HINT@);
                logger.add_log(log);
            }
            i += 1;
        }
        logger
    }

    /// Whether the letter of `option_flag` names an option.
    fn is_known(option_flag: &String) -> (known: bool)
        ensures
            known == is_known_flag(option_flag@),
    {
        let flag = option_flag.as_str();
        if flag.unicode_len() < 2 {
            return false;
        }
        let letter = flag.get_char(1);
        letter == 'h' || letter == 'l' || letter == 'p' || letter == 'o' || letter == 'd'
            || letter == 'a'
    }

    /// Reads the arguments: the options with their values, and the
    /// sources. Then makes the check that is due: the one of the flags
    /// where the first check was made, and hands back its messages.
    pub fn parse(&mut self) -> (logger: Logger)
        ensures
            final(self).sys_args == old(self).sys_args,
            final(self).check_step_1,
            final(self).reading(Seq::empty()) == (Reading {
                sources: sources_of(
                    read_all(old(self).reading(Seq::empty()), old(self).sys_args.deep_view()),
                ),
                key: Seq::empty(),
                ..read_all(old(self).reading(Seq::empty()), old(self).sys_args.deep_view())
            }),
            old(self).check_step_1 ==> logger@ == flag_warnings(
                final(self).options.entries@,
                final(self).options.entries@.len() as int,
            ),
            !old(self).check_step_1 ==> logger@ == if old(self).sys_args.len() == 1 {
                seq![no_arguments_error()]
            } else {
                Seq::<LogView>::empty()
            },
    {
        let mut key = String::new();
        let mut i: usize = 0;
        while i < self.sys_args.len()
            invariant
                i <= self.sys_args.len(),
                self.sys_args == old(self).sys_args,
                self.check_step_1 == old(self).check_step_1,
                self.reading(key@) == read_all(
                    old(self).reading(Seq::empty()),
                    old(self).sys_args.deep_view().take(i as int),
                ),
            decreases self.sys_args.len() - i,
        {
            let arg = self.sys_args[i].clone();
            proof {
                let args = old(self).sys_args.deep_view();
                assert(args.take(i + 1).drop_last() =~= args.take(i as int));
                assert(args.take(i + 1).last() == arg@);
            }
            if self.is_option(&arg) {
                self.options.insert(arg.clone(), String::new());
                key = arg;
            } else if self.previous_is_option {
                self.previous_is_option = false;
                self.options.insert(key.clone(), arg);
            } else {
                let ghost before = self.sources.deep_view();
                self.sources.push(arg);
                assert(self.sources.deep_view() =~= before.push(arg@));
            }
            i += 1;
        }
        assert(old(self).sys_args.deep_view().take(self.sys_args.len() as int) =~= old(self).sys_args.deep_view());
        if self.sources.len() > 0 {
            let ghost before = self.sources.deep_view();
            self.sources.remove(0);
            assert(self.sources.deep_view() =~= before.subrange(1, before.len() as int));
        }
        self.check()
    }

    /// Whether `arg` is the flag of an option. Where it is, the argument
    /// that follows is taken for its value.
    pub fn is_option(&mut self, arg: &String) -> (option: bool)
        ensures
            option == is_flag(arg@),
            *final(self) == (Args {
                previous_is_option: old(self).previous_is_option || option,
                ..*old(self)
            }),
    {
        let text = arg.as_str();
        if text.unicode_len() > 0 && text.get_char(0) == '-' {
            self.previous_is_option = true;
            true
        } else {
            false
        }
    }

    pub fn get_sources(&self) -> (sources: &Vec<String>)
        ensures
            *sources == self.sources,
    {
        &self.sources
    }

    pub fn get_options(&self) -> (options: &Dict)
        ensures
            *options == self.options,
    {
        &self.options
    }

    /// The value of the option with the letter `flag`, where that option
    /// was given.
    pub fn when_flag(flag: char, options: &Dict) -> (value: Option<String>)
        ensures
            match value {
                Some(v) => options@.dom().contains(flag_text(flag)) && v@ == options@[flag_text(
                    flag,
                )],
                None => !options@.dom().contains(flag_text(flag)),
            },
    {
        match options.get_flag(flag) {
            Some(value) => Some(value.clone()),
            None => None,
        }
    }
}

} // verus!
