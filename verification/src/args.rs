//! The arguments of the command line: what each flag sets, and which of
//! them end the run before it starts.

use crate::report::Level;
use crate::text::{chars_of, spells, string_of};
use vstd::prelude::*;
use vstd::string::StringExecFns;

verus! {

/// One setting: its value, the flag that sets it, and whether the flag
/// has been marked as used.
#[derive(Debug)]
pub struct Arg<T> {
    field: Box<T>,
    name: &'static str,
    set: bool,
}

/// What an `Arg` holds.
pub struct ArgView<T> {
    pub value: T,
    pub name: &'static str,
    pub set: bool,
}

impl<T> Arg<T> {
    /// What the setting holds.
    pub closed spec fn view(&self) -> ArgView<T> {
        ArgView { value: *self.field, name: self.name, set: self.set }
    }

    /// A setting at its default, not marked as used.
    pub fn new(default: T, name: &'static str) -> (r: Arg<T>)
        ensures
            r.view() == (ArgView { value: default, name, set: false }),
    {
        Arg { field: Box::new(default), name, set: false }
    }

    /// Gives the setting a new value, unless it is marked as used: then
    /// nothing changes and the flag's name comes back as the error.
    pub fn try_mut(&mut self, value: T) -> (r: Result<(), &'static str>)
        ensures
            old(self).view().set ==> r == Err::<(), &'static str>(old(self).view().name)
                && final(self).view() == old(self).view(),
            !old(self).view().set ==> r is Ok && final(self).view() == (ArgView {
                value,
                ..old(self).view()
            }),
    {
        if self.set {
            return Err(self.name);
        }
        self.field = Box::new(value);
        Ok(())
    }

    /// The value of the setting.
    pub fn get(&self) -> (r: &T)
        ensures
            *r == self.view().value,
    {
        &*self.field
    }
}

/// All settings of a run.
#[derive(Debug)]
pub struct Args {
    pub file: Arg<String>,
    pub output: Arg<String>,
    pub debug: Arg<bool>,
    pub code_context: Arg<bool>,
    pub level: Arg<Level>,
    pub verbs: Vec<String>,
}

/// What `Args` holds, as plain values.
pub struct ArgsView {
    pub file: ArgView<Seq<char>>,
    pub output: ArgView<Seq<char>>,
    pub debug: ArgView<bool>,
    pub code_context: ArgView<bool>,
    pub level: ArgView<Level>,
    pub verbs: Seq<Seq<char>>,
}

/// Why the arguments end the run: something was asked for that is printed
/// instead of compiling, or an argument is wrong.
#[derive(Debug, Clone, PartialEq, Eq)]
pub enum Stop {
    /// `-h`: the line of usage.
    Usage,
    /// `--help`: usage and the list of options.
    Help,
    /// `-V`, `--version`.
    Version,
    /// The verb `shark`.
    Shark,
    /// A flag marked as used was given again.
    Repeated(&'static str),
    /// A flag that takes a value stands inside a group of flags.
    NotLast,
    /// `--error-level` without a level after it.
    ExpectedLevel,
    /// `--file` or `--output` without a file after it.
    ExpectedFile,
    /// `--error-level` with a word that names no level.
    InvalidLevel(String),
    /// A flag that does not exist.
    Unrecognized(String),
}

/// What a `Stop` holds, as plain values.
pub enum StopView {
    Usage,
    Help,
    Version,
    Shark,
    Repeated(&'static str),
    NotLast,
    ExpectedLevel,
    ExpectedFile,
    InvalidLevel(Seq<char>),
    Unrecognized(Seq<char>),
}

impl View for Stop {
    type V = StopView;

    open spec fn view(&self) -> StopView {
        match self {
            Stop::Usage => StopView::Usage,
            Stop::Help => StopView::Help,
            Stop::Version => StopView::Version,
            Stop::Shark => StopView::Shark,
            Stop::Repeated(name) => StopView::Repeated(name),
            Stop::NotLast => StopView::NotLast,
            Stop::ExpectedLevel => StopView::ExpectedLevel,
            Stop::ExpectedFile => StopView::ExpectedFile,
            Stop::InvalidLevel(word) => StopView::InvalidLevel(word@),
            Stop::Unrecognized(flag) => StopView::Unrecognized(flag@),
        }
    }
}

/// The characters of each of some strings.
pub open spec fn words_view(words: Seq<String>) -> Seq<Seq<char>> {
    words.map_values(|w: String| w@)
}

impl View for Args {
    type V = ArgsView;

    open spec fn view(&self) -> ArgsView {
        ArgsView {
            file: ArgView {
                value: self.file.view().value@,
                name: self.file.view().name,
                set: self.file.view().set,
            },
            output: ArgView {
                value: self.output.view().value@,
                name: self.output.view().name,
                set: self.output.view().set,
            },
            debug: self.debug.view(),
            code_context: self.code_context.view(),
            level: self.level.view(),
            verbs: words_view(self.verbs@),
        }
    }
}

/// What the name of a flag, without its dashes, stands for.
#[derive(Clone, Copy, Debug, PartialEq, Eq)]
pub enum Flag {
    Usage,
    Help,
    Version,
    Debug,
    ErrorLevel,
    NoContext,
    File,
    Output,
    Unknown,
}

/// What the name of a flag stands for: one letter or the long name.
pub open spec fn spec_flag(name: Seq<char>) -> Flag {
    if name == "h"@ {
        Flag::Usage
    } else if name == "help"@ {
        Flag::Help
    } else if name == "V"@ || name == "version"@ {
        Flag::Version
    } else if name == "d"@ || name == "debug"@ {
        Flag::Debug
    } else if name == "l"@ || name == "error-level"@ {
        Flag::ErrorLevel
    } else if name == "no-context"@ {
        Flag::NoContext
    } else if name == "f"@ || name == "file"@ {
        Flag::File
    } else if name == "o"@ || name == "output"@ {
        Flag::Output
    } else {
        Flag::Unknown
    }
}

/// The level that a word after `--error-level` names.
pub open spec fn spec_level_word(word: Seq<char>) -> Option<Level> {
    if word == "f"@ || word == "fatal"@ {
        Some(Level::Fatal)
    } else if word == "e"@ || word == "error"@ {
        Some(Level::Error)
    } else if word == "w"@ || word == "warn"@ {
        Some(Level::Warn)
    } else if word == "n"@ || word == "note"@ {
        Some(Level::Note)
    } else if word == "s"@ || word == "silent"@ {
        Some(Level::Silent)
    } else {
        None
    }
}

/// The settings before any argument is read.
pub open spec fn spec_default() -> ArgsView {
    ArgsView {
        file: ArgView { value: "main.shd"@, name: "--file", set: false },
        output: ArgView { value: "main.asm"@, name: "--output", set: false },
        debug: ArgView { value: false, name: "--debug", set: false },
        code_context: ArgView { value: true, name: "--code-context", set: false },
        level: ArgView { value: Level::Warn, name: "--error-level", set: false },
        verbs: Seq::empty(),
    }
}

/// A setting after a flag gave it `value`, or the stop of a flag given
/// again.
pub open spec fn changed<T>(arg: ArgView<T>, value: T) -> Result<ArgView<T>, StopView> {
    if arg.set {
        Err(StopView::Repeated(arg.name))
    } else {
        Ok(ArgView { value, ..arg })
    }
}

/// Outcome of one flag: the settings after it or the stop, and whether it
/// took the argument that follows as its value.
pub struct Handled {
    pub out: Result<ArgsView, StopView>,
    pub took_next: bool,
}

/// The outcome of a flag that ends the run and takes no value.
pub open spec fn stopped(stop: StopView) -> Handled {
    Handled { out: Err(stop), took_next: false }
}

/// What the flag `name` does to the settings. `next` is the argument that
/// follows, if there is one; `is_end` says that the flag is the last of
/// its group, which a flag that takes a value must be.
pub open spec fn spec_handle(
    settings: ArgsView,
    name: Seq<char>,
    next: Option<Seq<char>>,
    is_end: bool,
) -> Handled {
    match spec_flag(name) {
        Flag::Usage => stopped(StopView::Usage),
        Flag::Help => stopped(StopView::Help),
        Flag::Version => stopped(StopView::Version),
        Flag::Debug => Handled {
            out: match changed(settings.debug, true) {
                Ok(debug) => Ok(ArgsView { debug, ..settings }),
                Err(stop) => Err(stop),
            },
            took_next: false,
        },
        Flag::NoContext => Handled {
            out: match changed(settings.code_context, false) {
                Ok(code_context) => Ok(ArgsView { code_context, ..settings }),
                Err(stop) => Err(stop),
            },
            took_next: false,
        },
        Flag::ErrorLevel => if !is_end {
            stopped(StopView::NotLast)
        } else if next is None {
            stopped(StopView::ExpectedLevel)
        } else if spec_level_word(next->0) is None {
            Handled { out: Err(StopView::InvalidLevel(next->0)), took_next: true }
        } else {
            Handled {
                out: match changed(settings.level, spec_level_word(next->0)->0) {
                    Ok(level) => Ok(ArgsView { level, ..settings }),
                    Err(stop) => Err(stop),
                },
                took_next: true,
            }
        },
        Flag::File => if !is_end {
            stopped(StopView::NotLast)
        } else if next is None {
            stopped(StopView::ExpectedFile)
        } else {
            Handled {
                out: match changed(settings.file, next->0) {
                    Ok(file) => Ok(ArgsView { file, ..settings }),
                    Err(stop) => Err(stop),
                },
                took_next: true,
            }
        },
        Flag::Output => if !is_end {
            stopped(StopView::NotLast)
        } else if next is None {
            stopped(StopView::ExpectedFile)
        } else {
            Handled {
                out: match changed(settings.output, next->0) {
                    Ok(output) => Ok(ArgsView { output, ..settings }),
                    Err(stop) => Err(stop),
                },
                took_next: true,
            }
        },
        Flag::Unknown => stopped(StopView::Unrecognized(name)),
    }
}

/// The argument at `i`, if there is one.
pub open spec fn word_at(words: Seq<Seq<char>>, i: int) -> Option<Seq<char>> {
    if 0 <= i < words.len() {
        Some(words[i])
    } else {
        None
    }
}

/// Outcome of a group of one-letter flags: as `Handled`.
pub open spec fn spec_group(
    settings: ArgsView,
    group: Seq<char>,
    k: int,
    next: Option<Seq<char>>,
) -> Handled
    decreases group.len() - k,
{
    if 0 <= k < group.len() {
        let one = spec_handle(settings, seq![group[k]], next, k == group.len() - 1);
        match one.out {
            Ok(after) => if one.took_next {
                one
            } else {
                spec_group(after, group, k + 1, next)
            },
            Err(_) => one,
        }
    } else {
        Handled { out: Ok(settings), took_next: false }
    }
}

/// The settings after the arguments from `i` on, or the stop that ends
/// the run. `--name` is one flag, `-abc` a group of one-letter flags; a
/// flag that takes a value finds it in the argument after it. The first
/// argument that is no flag starts the verbs, which run to the end; the
/// verb `shark` in that place is a stop.
pub open spec fn spec_parse(settings: ArgsView, words: Seq<Seq<char>>, i: int) -> Result<
    ArgsView,
    StopView,
>
    decreases words.len() - i,
{
    if 0 <= i < words.len() {
        let word = words[i];
        let next = word_at(words, i + 1);
        if word.len() >= 2 && word[0] == '-' && word[1] == '-' {
            let one = spec_handle(settings, word.skip(2), next, true);
            match one.out {
                Ok(after) => spec_parse(
                    after,
                    words,
                    if one.took_next && next is Some { i + 2 } else { i + 1 },
                ),
                Err(stop) => Err(stop),
            }
        } else if word.len() >= 1 && word[0] == '-' {
            let group = spec_group(settings, word.skip(1), 0, next);
            match group.out {
                Ok(after) => spec_parse(
                    after,
                    words,
                    if group.took_next && next is Some { i + 2 } else { i + 1 },
                ),
                Err(stop) => Err(stop),
            }
        } else if word == "shark"@ {
            Err(StopView::Shark)
        } else {
            Ok(ArgsView { verbs: settings.verbs + words.skip(i), ..settings })
        }
    } else {
        Ok(settings)
    }
}

/// The words of a stop that is an error, as they are printed; nothing for
/// a stop that prints something else.
pub open spec fn spec_message(stop: StopView) -> Option<Seq<char>> {
    match stop {
        StopView::Repeated(name) => Some(
            "the argument "@ + name@ + " cannot be used multiple times"@,
        ),
        StopView::NotLast => Some(
            "flags with parameters must be at the end of a group, or defined separately"@,
        ),
        StopView::ExpectedLevel => Some("expected level"@),
        StopView::ExpectedFile => Some("expected file"@),
        StopView::InvalidLevel(word) => Some("invalid level `"@ + word + "`"@),
        StopView::Unrecognized(flag) => Some("unrecognized argument '"@ + flag + "'"@),
        _ => None,
    }
}

impl Stop {
    /// The words of a stop that is an error, as they are printed.
    pub fn message(&self) -> (r: Option<String>)
        ensures
            r is Some <==> spec_message(self@) is Some,
            r matches Some(text) ==> Some(text@) == spec_message(self@),
    {
        match self {
            Stop::Repeated(name) => Some(
                String::from_str("the argument ").concat(name).concat(
                    " cannot be used multiple times",
                ),
            ),
            Stop::NotLast => Some(
                String::from_str(
                    "flags with parameters must be at the end of a group, or defined separately",
                ),
            ),
            Stop::ExpectedLevel => Some(String::from_str("expected level")),
            Stop::ExpectedFile => Some(String::from_str("expected file")),
            Stop::InvalidLevel(word) => Some(
                String::from_str("invalid level `").concat(word.as_str()).concat("`"),
            ),
            Stop::Unrecognized(flag) => Some(
                String::from_str("unrecognized argument '").concat(flag.as_str()).concat("'"),
            ),
            _ => None,
        }
    }

    /// The code with which the process ends: 0 where something asked for
    /// was printed, 1 for the shark and for every error.
    pub fn exit_code(&self) -> (r: u8)
        ensures
            r == (if self@ is Usage || self@ is Help || self@ is Version {
                0u8
            } else {
                1u8
            }),
    {
        match self {
            Stop::Usage | Stop::Help | Stop::Version => 0,
            _ => 1,
        }
    }
}

/// What `chars[from..]` stands for as the name of a flag.
fn flag_of(chars: &Vec<char>, from: usize) -> (r: Flag)
    requires
        from <= chars.len(),
    ensures
        r == spec_flag(chars@.skip(from as int)),
{
    let to: usize = chars.len();
    assert(chars@.subrange(from as int, to as int) =~= chars@.skip(from as int));
    if spells(chars, from, to, "h") {
        Flag::Usage
    } else if spells(chars, from, to, "help") {
        Flag::Help
    } else if spells(chars, from, to, "V") || spells(chars, from, to, "version") {
        Flag::Version
    } else if spells(chars, from, to, "d") || spells(chars, from, to, "debug") {
        Flag::Debug
    } else if spells(chars, from, to, "l") || spells(chars, from, to, "error-level") {
        Flag::ErrorLevel
    } else if spells(chars, from, to, "no-context") {
        Flag::NoContext
    } else if spells(chars, from, to, "f") || spells(chars, from, to, "file") {
        Flag::File
    } else if spells(chars, from, to, "o") || spells(chars, from, to, "output") {
        Flag::Output
    } else {
        Flag::Unknown
    }
}

/// The level that a word names.
fn level_of(word: &str) -> (r: Option<Level>)
    ensures
        r == spec_level_word(word@),
{
    let chars = chars_of(word);
    let to: usize = chars.len();
    assert(chars@.subrange(0, to as int) =~= word@);
    if spells(&chars, 0, to, "f") || spells(&chars, 0, to, "fatal") {
        Some(Level::Fatal)
    } else if spells(&chars, 0, to, "e") || spells(&chars, 0, to, "error") {
        Some(Level::Error)
    } else if spells(&chars, 0, to, "w") || spells(&chars, 0, to, "warn") {
        Some(Level::Warn)
    } else if spells(&chars, 0, to, "n") || spells(&chars, 0, to, "note") {
        Some(Level::Note)
    } else if spells(&chars, 0, to, "s") || spells(&chars, 0, to, "silent") {
        Some(Level::Silent)
    } else {
        None
    }
}

impl Args {
    /// The settings before any argument is read.
    pub fn default() -> (r: Args)
        ensures
            r@ == spec_default(),
    {
        let r = Args {
            file: Arg::new(String::from_str("main.shd"), "--file"),
            output: Arg::new(String::from_str("main.asm"), "--output"),
            debug: Arg::new(false, "--debug"),
            code_context: Arg::new(true, "--code-context"),
            level: Arg::new(Level::Warn, "--error-level"),
            verbs: Vec::new(),
        };
        assert(words_view(r.verbs@) =~= Seq::<Seq<char>>::empty());
        r
    }

    /// Lets one flag act on the settings. `chars[from..]` is the name of
    /// the flag, `next` the argument after it. The result says whether
    /// that argument was taken as the flag's value.
    fn handle_arg(&mut self, chars: &Vec<char>, from: usize, next: Option<&String>, is_end: bool) -> (r:
        Result<bool, Stop>)
        requires
            from <= chars.len(),
        ensures
            ({
                let spec = spec_handle(
                    old(self)@,
                    chars@.skip(from as int),
                    match next {
                        Some(word) => Some(word@),
                        None => None,
                    },
                    is_end,
                );
                match r {
                    Ok(took) => spec.out == Ok::<ArgsView, StopView>(final(self)@) && took
                        == spec.took_next,
                    Err(stop) => spec.out == Err::<ArgsView, StopView>(stop@),
                }
            }),
    {
        match flag_of(chars, from) {
            Flag::Usage => Err(Stop::Usage),
            Flag::Help => Err(Stop::Help),
            Flag::Version => Err(Stop::Version),
            Flag::Debug => match self.debug.try_mut(true) {
                Ok(()) => Ok(false),
                Err(name) => Err(Stop::Repeated(name)),
            },
            Flag::NoContext => match self.code_context.try_mut(false) {
                Ok(()) => Ok(false),
                Err(name) => Err(Stop::Repeated(name)),
            },
            Flag::ErrorLevel => {
                if !is_end {
                    return Err(Stop::NotLast);
                }
                let word = match next {
                    Some(word) => word,
                    None => {
                        return Err(Stop::ExpectedLevel);
                    },
                };
                match level_of(word.as_str()) {
                    Some(level) => match self.level.try_mut(level) {
                        Ok(()) => Ok(true),
                        Err(name) => Err(Stop::Repeated(name)),
                    },
                    None => Err(Stop::InvalidLevel(word.clone())),
                }
            },
            Flag::File => {
                if !is_end {
                    return Err(Stop::NotLast);
                }
                match next {
                    Some(word) => match self.file.try_mut(word.clone()) {
                        Ok(()) => Ok(true),
                        Err(name) => Err(Stop::Repeated(name)),
                    },
                    None => Err(Stop::ExpectedFile),
                }
            },
            Flag::Output => {
                if !is_end {
                    return Err(Stop::NotLast);
                }
                match next {
                    Some(word) => match self.output.try_mut(word.clone()) {
                        Ok(()) => Ok(true),
                        Err(name) => Err(Stop::Repeated(name)),
                    },
                    None => Err(Stop::ExpectedFile),
                }
            },
            Flag::Unknown => Err(Stop::Unrecognized(string_of(chars, from, chars.len()))),
        }
    }

    /// Lets a group of one-letter flags act on the settings, letter by
    /// letter from `chars[1]` on.
    fn handle_group(&mut self, chars: &Vec<char>, next: Option<&String>) -> (r: Result<bool, Stop>)
        requires
            chars.len() >= 1,
        ensures
            ({
                let spec = spec_group(
                    old(self)@,
                    chars@.skip(1),
                    0,
                    match next {
                        Some(word) => Some(word@),
                        None => None,
                    },
                );
                match r {
                    Ok(took) => spec.out == Ok::<ArgsView, StopView>(final(self)@) && took
                        == spec.took_next,
                    Err(stop) => spec.out == Err::<ArgsView, StopView>(stop@),
                }
            }),
    {
        let ghost group = chars@.skip(1);
        let ghost following = match next {
            Some(word) => Some(word@),
            None => None,
        };
        let mut k: usize = 1;
        while k < chars.len()
            invariant
                1 <= k <= chars.len(),
                group == chars@.skip(1),
                following == (match next {
                    Some(word) => Some(word@),
                    None => None,
                }),
                spec_group(old(self)@, group, 0, following) == spec_group(
                    self@,
                    group,
                    k - 1,
                    following,
                ),
            decreases chars.len() - k,
        {
            let mut letter: Vec<char> = Vec::new();
            letter.push(chars[k]);
            assert(letter@.skip(0) =~= seq![group[k - 1]]);
            match self.handle_arg(&letter, 0, next, k == chars.len() - 1) {
                Ok(took) => {
                    if took {
                        return Ok(true);
                    }
                },
                Err(stop) => {
                    return Err(stop);
                },
            }
            k += 1;
        }
        Ok(false)
    }

    /// Reads the arguments of the command line, without the name of the
    /// program. Either the settings come back or the reason why the run
    /// ends here.
    pub fn parse(args: Vec<String>) -> (r: Result<Args, Stop>)
        ensures
            match r {
                Ok(settings) => spec_parse(spec_default(), words_view(args@), 0) == Ok::<
                    ArgsView,
                    StopView,
                >(settings@),
                Err(stop) => spec_parse(spec_default(), words_view(args@), 0) == Err::<
                    ArgsView,
                    StopView,
                >(stop@),
            },
    {
        let mut out = Args::default();
        let ghost words = words_view(args@);
        let mut i: usize = 0;
        while i < args.len()
            invariant
                i <= args.len(),
                words == words_view(args@),
                spec_parse(spec_default(), words, 0) == spec_parse(out@, words, i as int),
            decreases args.len() - i,
        {
            let chars = chars_of(args[i].as_str());
            let next: Option<&String> = if i + 1 < args.len() {
                Some(&args[i + 1])
            } else {
                None
            };
            let dashes: usize = if chars.len() >= 2 && chars[0] == '-' && chars[1] == '-' {
                2
            } else if chars.len() >= 1 && chars[0] == '-' {
                1
            } else {
                0
            };
            if dashes == 0 {
                if spells(&chars, 0, chars.len(), "shark") {
                    assert(chars@.subrange(0, chars.len() as int) =~= words[i as int]);
                    return Err(Stop::Shark);
                }
                assert(chars@.subrange(0, chars.len() as int) =~= words[i as int]);
                let ghost before = out@;
                let ghost start = i;
                assert(before.verbs + words.subrange(start as int, i as int) =~= before.verbs);
                while i < args.len()
                    invariant
                        start <= i <= args.len(),
                        words == words_view(args@),
                        out@ == (ArgsView {
                            verbs: before.verbs + words.subrange(start as int, i as int),
                            ..before
                        }),
                    decreases args.len() - i,
                {
                    let ghost verbs = out.verbs@;
                    let verb = args[i].clone();
                    assert(verb@ == words[i as int]);
                    out.verbs.push(verb);
                    i += 1;
                    assert(words_view(out.verbs@) =~= words_view(verbs).push(verb@));
                    assert(words.subrange(start as int, i as int) =~= words.subrange(
                        start as int,
                        i - 1,
                    ).push(words[i - 1]));
                    assert(words_view(out.verbs@) =~= before.verbs + words.subrange(
                        start as int,
                        i as int,
                    ));
                }
                assert(words.subrange(start as int, i as int) =~= words.skip(start as int));
                return Ok(out);
            }
            let took = if dashes == 2 {
                match out.handle_arg(&chars, 2, next, true) {
                    Ok(took) => took,
                    Err(stop) => {
                        return Err(stop);
                    },
                }
            } else {
                match out.handle_group(&chars, next) {
                    Ok(took) => took,
                    Err(stop) => {
                        return Err(stop);
                    },
                }
            };
            i = if took && next.is_some() { i + 2 } else { i + 1 };
        }
        Ok(out)
    }
}

} // verus!
