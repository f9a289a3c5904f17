//! The daemon's command line and the status word it publishes for the panel.
use vstd::prelude::*;
use crate::config::{Config, LedMode};
use crate::text::{chars_of, is_word, string_from_chars};

verus! {

/// What the command line asks for.
#[derive(Debug)]
pub enum Invocation {
    /// Run the daemon, with another config file and/or LEDs forced off.
    Run { config: Option<String>, leds_off: bool },
    /// `--diagnose`.
    Diagnose,
    /// `--watch`.
    Watch,
    /// `-h` / `--help`.
    Help,
    /// `--config` without a path.
    MissingConfigPath,
    /// An unknown option.
    Unknown(String),
}

/// [`Invocation`] with plain sequences.
pub enum InvocationSpec {
    Run { config: Option<Seq<char>>, leds_off: bool },
    Diagnose,
    Watch,
    Help,
    MissingConfigPath,
    Unknown(Seq<char>),
}

impl View for Invocation {
    type V = InvocationSpec;

    open spec fn view(&self) -> InvocationSpec {
        match self {
            Invocation::Run { config, leds_off } => InvocationSpec::Run {
                config: match config {
                    Some(s) => Some(s@),
                    None => None,
                },
                leds_off: *leds_off,
            },
            Invocation::Diagnose => InvocationSpec::Diagnose,
            Invocation::Watch => InvocationSpec::Watch,
            Invocation::Help => InvocationSpec::Help,
            Invocation::MissingConfigPath => InvocationSpec::MissingConfigPath,
            Invocation::Unknown(s) => InvocationSpec::Unknown(s@),
        }
    }
}

/// The arguments read from the front; `--diagnose`, `--watch`, `--help` and
/// errors end the reading at once; a later `--config` replaces an earlier one.
pub open spec fn invocation_of(args: Seq<Seq<char>>, config: Option<Seq<char>>, leds_off: bool) -> InvocationSpec
    decreases args.len(),
{
    if args.len() == 0 {
        InvocationSpec::Run { config, leds_off }
    } else {
        let a = args[0];
        if a == "--leds-off"@ {
            invocation_of(args.drop_first(), config, true)
        } else if a == "--diagnose"@ {
            InvocationSpec::Diagnose
        } else if a == "--watch"@ {
            InvocationSpec::Watch
        } else if a == "--config"@ {
            if args.len() >= 2 {
                invocation_of(args.skip(2), Some(args[1]), leds_off)
            } else {
                InvocationSpec::MissingConfigPath
            }
        } else if a == "-h"@ || a == "--help"@ {
            InvocationSpec::Help
        } else {
            InvocationSpec::Unknown(a)
        }
    }
}

/// Reads the command line (without the program name).
pub fn parse_args(args: &[String]) -> (r: Invocation)
    ensures
        r@ == invocation_of(args@.map_values(|s: String| s@), None, false),
{
    let ghost all = args@.map_values(|s: String| s@);
    let mut config: Option<String> = None;
    let mut leds_off = false;
    let mut i: usize = 0;
    assert(all.skip(0) =~= all);
    while i < args.len()
        invariant
            i <= args@.len(),
            all == args@.map_values(|s: String| s@),
            invocation_of(all, None, false) == invocation_of(
                all.skip(i as int),
                match config {
                    Some(s) => Some(s@),
                    None => None,
                },
                leds_off,
            ),
        decreases args@.len() - i,
    {
        let a = chars_of(args[i].as_str());
        let ghost rest = all.skip(i as int);
        assert(rest[0] == a@);
        assert(rest.drop_first() =~= all.skip(i + 1));
        if is_word(&a, "--leds-off") {
            leds_off = true;
            i = i + 1;
        } else if is_word(&a, "--diagnose") {
            return Invocation::Diagnose;
        } else if is_word(&a, "--watch") {
            return Invocation::Watch;
        } else if is_word(&a, "--config") {
            if i + 1 < args.len() {
                assert(rest.skip(2) =~= all.skip(i + 2));
                assert(rest[1] == args@[i + 1]@);
                config = Some(string_from_chars(&chars_of(args[i + 1].as_str())));
                i = i + 2;
            } else {
                return Invocation::MissingConfigPath;
            }
        } else if is_word(&a, "-h") || is_word(&a, "--help") {
            return Invocation::Help;
        } else {
            return Invocation::Unknown(string_from_chars(&a));
        }
    }
    assert(all.skip(i as int).len() == 0);
    Invocation::Run { config, leds_off }
}

proof fn lemma_option_words()
    ensures
        "--leds-off"@ != "--diagnose"@,
        "--leds-off"@ != "--watch"@,
        "--leds-off"@ != "--config"@,
        "--leds-off"@ != "-h"@,
        "--leds-off"@ != "--help"@,
        "--config"@ != "--diagnose"@,
        "--config"@ != "--watch"@,
        "--config"@ != "-h"@,
        "--config"@ != "--help"@,
{
    reveal_strlit("--leds-off");
    reveal_strlit("--diagnose");
    reveal_strlit("--watch");
    reveal_strlit("--config");
    reveal_strlit("-h");
    reveal_strlit("--help");
    assert("--leds-off"@[2] != "--diagnose"@[2]);
    assert("--leds-off"@.len() == 10);
    assert("-h"@.len() == 2);
    assert("--config"@.len() == 8);
    assert("--watch"@.len() == 7);
    assert("--help"@.len() == 6);
    assert("--diagnose"@.len() == 10);
}

/// `--leds-off` switches the LEDs off whatever came before it: reading it and
/// then the rest is reading the rest with the LEDs off.
pub proof fn lemma_leds_off_sets(rest: Seq<Seq<char>>, config: Option<Seq<char>>, leds_off: bool)
    ensures
        invocation_of(seq!["--leds-off"@] + rest, config, leds_off) == invocation_of(
            rest,
            config,
            true,
        ),
{
    assert((seq!["--leds-off"@] + rest)[0] == "--leds-off"@);
    assert((seq!["--leds-off"@] + rest).drop_first() =~= rest);
}

/// Once `--leds-off` was read, a run keeps the LEDs off, whatever follows.
pub proof fn lemma_leds_off_kept(args: Seq<Seq<char>>, config: Option<Seq<char>>)
    ensures
        invocation_of(args, config, true) matches InvocationSpec::Run { leds_off, .. } ==> leds_off,
    decreases args.len(),
{
    if args.len() > 0 {
        lemma_leds_off_kept(args.drop_first(), config);
        if args.len() >= 2 {
            lemma_leds_off_kept(args.skip(2), Some(args[1]));
        }
    }
}

/// A run without `--leds-off` among its arguments keeps the LEDs as they were.
pub proof fn lemma_leds_off_only_by_flag(args: Seq<Seq<char>>, config: Option<Seq<char>>)
    requires
        forall|i: int| 0 <= i < args.len() ==> args[i] != "--leds-off"@,
    ensures
        invocation_of(args, config, false) matches InvocationSpec::Run { leds_off, .. } ==> !leds_off,
    decreases args.len(),
{
    if args.len() > 0 {
        assert forall|i: int| 0 <= i < args.drop_first().len() implies args.drop_first()[i]
            != "--leds-off"@ by {
            assert(args.drop_first()[i] == args[i + 1]);
        }
        lemma_leds_off_only_by_flag(args.drop_first(), config);
        if args.len() >= 2 {
            assert forall|i: int| 0 <= i < args.skip(2).len() implies args.skip(2)[i]
                != "--leds-off"@ by {
                assert(args.skip(2)[i] == args[i + 2]);
            }
            lemma_leds_off_only_by_flag(args.skip(2), Some(args[1]));
        }
    }
}

/// The order of `--config <path>` and `--leds-off` does not matter: both orders
/// read the same.
pub proof fn lemma_options_commute(
    path: Seq<char>,
    rest: Seq<Seq<char>>,
    config: Option<Seq<char>>,
    leds_off: bool,
)
    ensures
        invocation_of(seq!["--config"@, path, "--leds-off"@] + rest, config, leds_off)
            == invocation_of(seq!["--leds-off"@, "--config"@, path] + rest, config, leds_off),
        invocation_of(seq!["--config"@, path, "--leds-off"@] + rest, config, leds_off)
            == invocation_of(rest, Some(path), true),
{
    lemma_option_words();
    let a = seq!["--config"@, path, "--leds-off"@] + rest;
    let b = seq!["--leds-off"@, "--config"@, path] + rest;
    assert(a[0] == "--config"@);
    assert(a[1] == path);
    assert(a.skip(2)[0] == "--leds-off"@);
    assert(a.skip(2).drop_first() =~= rest);
    assert(b[0] == "--leds-off"@);
    assert(b.drop_first()[0] == "--config"@);
    assert(b.drop_first()[1] == path);
    assert(b.drop_first().skip(2) =~= rest);
    assert(invocation_of(a, config, leds_off) == invocation_of(a.skip(2), Some(path), leds_off));
    assert(invocation_of(a.skip(2), Some(path), leds_off) == invocation_of(rest, Some(path), true));
    assert(invocation_of(b, config, leds_off) == invocation_of(b.drop_first(), config, true));
    assert(invocation_of(b.drop_first(), config, true) == invocation_of(rest, Some(path), true));
}

/// The configuration the daemon runs with: `--leds-off` forces the LEDs off.
pub fn effective_config(cfg: Config, leds_off: bool) -> (c: Config)
    ensures
        c == if leds_off {
            Config { led_mode: LedMode::Off, ..cfg }
        } else {
            cfg
        },
{
    let mut c = cfg;
    if leds_off {
        c.led_mode = LedMode::Off;
    }
    c
}

/// The daemon's state, published in the status file.
#[derive(Clone, Copy, PartialEq, Eq, Structural, Debug)]
pub enum DaemonStatus {
    Searching,
    Connected,
    Stopped,
}

pub open spec fn status_text_of(s: DaemonStatus) -> Seq<char> {
    match s {
        DaemonStatus::Searching => "recherche"@,
        DaemonStatus::Connected => "connecte"@,
        DaemonStatus::Stopped => "arrete"@,
    }
}

impl DaemonStatus {
    /// The word written to the status file.
    pub fn text(&self) -> (s: &'static str)
        ensures
            s@ == status_text_of(*self),
    {
        match self {
            DaemonStatus::Searching => "recherche",
            DaemonStatus::Connected => "connecte",
            DaemonStatus::Stopped => "arrete",
        }
    }

    /// Whether the battery, model and caps files stay valid: only while connected.
    pub fn keeps_device_info(&self) -> (r: bool)
        ensures
            r == (*self == DaemonStatus::Connected),
    {
        match self {
            DaemonStatus::Connected => true,
            _ => false,
        }
    }
}

} // verus!
