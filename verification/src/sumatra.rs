//! Launching the external Sumatra AI: its configuration, the command line it
//! is started with, where its launcher lives, and the checks on its
//! checkout.
use vstd::prelude::*;
use crate::team::TeamColor;
use crate::text::{push_char, push_str, views};

verus! {

/// How Sumatra is started.
#[derive(Debug, Clone)]
pub struct SumatraLaunchConfig {
    /// The Sumatra checkout the launcher is run from.
    pub repo_root: String,
    pub moduli: String,
    pub headless: bool,
    pub ai_blue: bool,
    pub ai_yellow: bool,
    pub auto_ref: bool,
    pub max_speed: bool,
    pub host: Option<String>,
    /// Run as a SimNet client of an outside simulator (moduli `sim_client`).
    pub remote_client: bool,
}

impl SumatraLaunchConfig {
    /// The default launch of the checkout at `repo_root`: the simulation
    /// protocol moduli, headless, AI on both sides, no autoref, at maximum
    /// speed, default host, local simulator.
    pub fn with_repo_root(repo_root: String) -> (res: SumatraLaunchConfig)
        ensures
            res.repo_root@ == repo_root@,
            res.moduli@ == "simulation_protocol"@,
            res.headless,
            res.ai_blue,
            res.ai_yellow,
            !res.auto_ref,
            res.max_speed,
            res.host is None,
            !res.remote_client,
    {
        let mut moduli = String::new();
        push_str(&mut moduli, "simulation_protocol");
        SumatraLaunchConfig {
            repo_root,
            moduli,
            headless: true,
            ai_blue: true,
            ai_yellow: true,
            auto_ref: false,
            max_speed: true,
            host: None,
            remote_client: false,
        }
    }

    /// The launch the match runner uses for an external side: the default
    /// launch as a SimNet client on the local host, with the AI on `color`
    /// only.
    pub fn for_remote_side(repo_root: String, color: TeamColor) -> (res: SumatraLaunchConfig)
        ensures
            res.repo_root@ == repo_root@,
            res.moduli@ == "simulation_protocol"@,
            res.headless,
            res.ai_blue == (color == TeamColor::Blue),
            res.ai_yellow == (color == TeamColor::Yellow),
            !res.auto_ref,
            res.max_speed,
            res.host is Some && res.host->0@ == "127.0.0.1"@,
            res.remote_client,
    {
        let mut c = SumatraLaunchConfig::with_repo_root(repo_root);
        let mut host = String::new();
        push_str(&mut host, "127.0.0.1");
        c.remote_client = true;
        c.ai_blue = color == TeamColor::Blue;
        c.ai_yellow = color == TeamColor::Yellow;
        c.host = Some(host);
        c
    }
}

/// Sumatra's command-line arguments: the moduli (`sim_client` for a remote
/// client), then the flags that are set, then the host. `--maxSpeed` is
/// left out for a remote client, which has no local simulator to speed up.
pub open spec fn sumatra_args_spec(c: SumatraLaunchConfig) -> Seq<Seq<char>> {
    let moduli = if c.remote_client {
        "sim_client"@
    } else {
        c.moduli@
    };
    let flag = |on: bool, text: Seq<char>| if on {
        seq![text]
    } else {
        Seq::<Seq<char>>::empty()
    };
    seq!["--moduli="@ + moduli] + flag(c.headless, "--headless"@) + flag(c.ai_blue, "--aiBlue"@)
        + flag(c.ai_yellow, "--aiYellow"@) + flag(c.auto_ref, "--autoRef"@) + flag(
        c.max_speed && !c.remote_client,
        "--maxSpeed"@,
    ) + match c.host {
        Some(h) => seq!["--host="@ + h@],
        None => Seq::empty(),
    }
}

fn push_arg(args: &mut Vec<String>, arg: String)
    ensures
        views(final(args)@) == views(old(args)@).push(arg@),
{
    args.push(arg);
    proof {
        assert(views(final(args)@) =~= views(old(args)@).push(arg@));
    }
}

fn owned(s: &str) -> (res: String)
    ensures
        res@ == s@,
{
    let mut out = String::new();
    push_str(&mut out, s);
    out
}

/// See [`sumatra_args_spec`].
pub fn sumatra_args(c: &SumatraLaunchConfig) -> (res: Vec<String>)
    ensures
        views(res@) == sumatra_args_spec(*c),
{
    let mut args: Vec<String> = Vec::new();
    let ghost mut expected: Seq<Seq<char>> = Seq::empty();
    proof {
        assert(views(args@) =~= expected);
    }
    let mut first = String::new();
    push_str(&mut first, "--moduli=");
    if c.remote_client {
        push_str(&mut first, "sim_client");
    } else {
        push_str(&mut first, c.moduli.as_str());
    }
    push_arg(&mut args, first);
    if c.headless {
        push_arg(&mut args, owned("--headless"));
    }
    if c.ai_blue {
        push_arg(&mut args, owned("--aiBlue"));
    }
    if c.ai_yellow {
        push_arg(&mut args, owned("--aiYellow"));
    }
    if c.auto_ref {
        push_arg(&mut args, owned("--autoRef"));
    }
    if c.max_speed && !c.remote_client {
        push_arg(&mut args, owned("--maxSpeed"));
    }
    match &c.host {
        Some(h) => {
            let mut a = String::new();
            push_str(&mut a, "--host=");
            push_str(&mut a, h.as_str());
            push_arg(&mut args, a);
        },
        None => {},
    }
    proof {
        assert(views(args@) =~= sumatra_args_spec(*c));
    }
    args
}

/// Whether `c` separates path components (`/`, and also `\` on Windows).
pub open spec fn is_separator(c: char, windows: bool) -> bool {
    c == '/' || (windows && c == '\\')
}

/// `rel` appended to `base` as a path component (`Path::join` with a
/// relative `rel`): a separator goes between them unless `base` is empty or
/// already ends with one.
pub open spec fn path_join_spec(base: Seq<char>, rel: Seq<char>, windows: bool) -> Seq<char> {
    if base.len() == 0 {
        rel
    } else if is_separator(base.last(), windows) {
        base + rel
    } else {
        base + seq![
            if windows {
                '\\'
            } else {
                '/'
            },
        ] + rel
    }
}

fn path_join(base: &str, rel: &str, windows: bool) -> (res: String)
    ensures
        res@ == path_join_spec(base@, rel@, windows),
{
    let mut out = String::new();
    push_str(&mut out, base);
    let n = base.unicode_len();
    if n > 0 {
        let last = base.get_char(n - 1);
        if !(last == '/' || (windows && last == '\\')) {
            if windows {
                push_char(&mut out, '\\');
            } else {
                push_char(&mut out, '/');
            }
        }
    }
    push_str(&mut out, rel);
    proof {
        assert(out@ =~= path_join_spec(base@, rel@, windows));
    }
    out
}

/// The launcher script of a built checkout:
/// `<repo_root>/build/install/sumatra/bin/sumatra` (`sumatra.bat` on
/// Windows).
pub open spec fn sumatra_launcher_spec(repo_root: Seq<char>, windows: bool) -> Seq<char> {
    path_join_spec(
        path_join_spec(repo_root, "build/install/sumatra/bin"@, windows),
        if windows {
            "sumatra.bat"@
        } else {
            "sumatra"@
        },
        windows,
    )
}

/// See [`sumatra_launcher_spec`].
pub fn sumatra_launcher(repo_root: &str, windows: bool) -> (res: String)
    ensures
        res@ == sumatra_launcher_spec(repo_root@, windows),
{
    let bin = path_join(repo_root, "build/install/sumatra/bin", windows);
    let name = if windows {
        "sumatra.bat"
    } else {
        "sumatra"
    };
    path_join(bin.as_str(), name, windows)
}

/// The check on a Sumatra checkout before launching it: the directory must
/// exist, and hold `gradlew`. `display` is how the path is printed.
pub open spec fn repo_check_spec(display: Seq<char>, exists: bool, has_gradlew: bool) -> Result<
    (),
    Seq<char>,
> {
    if !exists {
        Err("Sumatra checkout not found at "@ + display + ". Please clone it manually there."@)
    } else if !has_gradlew {
        Err(display + " does not look like a Sumatra checkout"@)
    } else {
        Ok(())
    }
}

/// See [`repo_check_spec`].
pub fn ensure_sumatra_repo(display: &str, exists: bool, has_gradlew: bool) -> (res: Result<(), String>)
    ensures
        match repo_check_spec(display@, exists, has_gradlew) {
            Ok(()) => res is Ok,
            Err(m) => res is Err && res->Err_0@ == m,
        },
{
    if !exists {
        let mut m = String::new();
        push_str(&mut m, "Sumatra checkout not found at ");
        push_str(&mut m, display);
        push_str(&mut m, ". Please clone it manually there.");
        return Err(m);
    }
    if !has_gradlew {
        let mut m = String::new();
        push_str(&mut m, display);
        push_str(&mut m, " does not look like a Sumatra checkout");
        return Err(m);
    }
    Ok(())
}

/// The launch failure reported when the launcher script is missing.
pub fn missing_launcher_message(launcher_display: &str) -> (res: String)
    ensures
        res@ == "missing built Sumatra launcher at "@ + launcher_display@,
{
    let mut m = String::new();
    push_str(&mut m, "missing built Sumatra launcher at ");
    push_str(&mut m, launcher_display);
    m
}

} // verus!
