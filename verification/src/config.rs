//! The command line: what the process is asked to do.

use crate::text::{begins_with, debug_format, debug_formatted, opt_text, same, texts};
use vstd::multiset::Multiset;
use vstd::prelude::*;

verus! {

/// What the process is asked to do, read once from the command line.
///
/// The type has no `Debug` impl, so that the token never reaches a log: [`RunConfig::debug_text`]
/// prints the configuration with the token masked.
#[derive(Clone, PartialEq, Eq)]
pub struct RunConfig {
    /// Whether debug logging is on.
    pub debug_enabled: bool,
    /// Whether to listen for inbound peers.
    pub listen_enabled: bool,
    /// The server to connect to, if any.
    pub server_url: Option<String>,
    /// The bearer token of the WebSocket handshake, if any.
    pub ws_token: Option<String>,
}

/// The contents of a [`RunConfig`].
pub struct RunConfigView {
    pub debug_enabled: bool,
    pub listen_enabled: bool,
    pub server_url: Option<Seq<char>>,
    pub ws_token: Option<Seq<char>>,
}

impl View for RunConfig {
    type V = RunConfigView;

    open spec fn view(&self) -> RunConfigView {
        RunConfigView {
            debug_enabled: self.debug_enabled,
            listen_enabled: self.listen_enabled,
            server_url: opt_text(self.server_url),
            ws_token: opt_text(self.ws_token),
        }
    }
}

/// `n` asterisks.
pub open spec fn stars(n: nat) -> Seq<char> {
    Seq::new(n, |i: int| '*')
}

/// `true` or `false`.
pub open spec fn bool_text(b: bool) -> Seq<char> {
    if b {
        "true"@
    } else {
        "false"@
    }
}

/// How a configuration is printed: the token appears as one asterisk per character.
pub open spec fn debug_text_of(c: RunConfigView) -> Seq<char> {
    debug_text_with(
        c,
        match c.server_url {
            Some(url) => Some(debug_format(url)),
            None => None,
        },
    )
}

/// As many asterisks as `token` has characters.
fn mask(token: &str) -> (r: String)
    ensures
        r@ == stars(token@.len()),
{
    let mut out = String::new();
    for c in it: token.chars()
        invariant
            out@ == stars(it.index() as nat),
            it.seq() == token@,
    {
        out.push('*');
        assert(out@ =~= stars((it.index() + 1) as nat));
    }
    out
}

fn append_bool(out: &mut String, b: bool)
    ensures
        final(out)@ == old(out)@ + bool_text(b),
{
    if b {
        out.append("true");
    } else {
        out.append("false");
    }
}

/// How a configuration is printed, given how its server is.
pub open spec fn debug_text_with(c: RunConfigView, server_shown: Option<Seq<char>>) -> Seq<char> {
    let url = match server_shown {
        Some(shown) => "Some("@ + shown + ")"@,
        None => "None"@,
    };
    let token = match c.ws_token {
        Some(token) => "Some(\""@ + stars(token.len()) + "\")"@,
        None => "None"@,
    };
    "RunConfig { debug_enabled: "@ + bool_text(c.debug_enabled) + ", listen_enabled: "@ + bool_text(
        c.listen_enabled,
    ) + ", server_url: "@ + url + ", ws_token: "@ + token + " }"@
}

impl RunConfig {
    /// Prints the configuration; the token is masked by as many asterisks as it has characters.
    pub fn debug_text(&self) -> (r: String)
        ensures
            r@ == debug_text_of(self@),
    {
        let server_shown = match &self.server_url {
            Some(url) => Some(debug_formatted(url.as_str())),
            None => None,
        };
        self.debug_text_showing(server_shown)
    }

    /// Prints the configuration, given how its server is printed.
    pub fn debug_text_showing(&self, server_shown: Option<String>) -> (r: String)
        ensures
            r@ == debug_text_with(self@, opt_text(server_shown)),
    {
        let mut out = String::new();
        out.append("RunConfig { debug_enabled: ");
        append_bool(&mut out, self.debug_enabled);
        out.append(", listen_enabled: ");
        append_bool(&mut out, self.listen_enabled);
        out.append(", server_url: ");
        let ghost head = out@;
        match &server_shown {
            Some(shown) => {
                out.append("Some(");
                out.append(shown.as_str());
                out.append(")");
                assert(out@ =~= head + ("Some("@ + shown@ + ")"@));
            },
            None => {
                out.append("None");
            },
        }
        out.append(", ws_token: ");
        let ghost head = out@;
        match &self.ws_token {
            Some(token) => {
                out.append("Some(\"");
                out.append(mask(token.as_str()).as_str());
                out.append("\")");
                assert(out@ =~= head + ("Some(\""@ + stars(token@.len()) + "\")"@));
            },
            None => {
                out.append("None");
            },
        }
        out.append(" }");
        assert(out@ =~= debug_text_with(self@, opt_text(server_shown)));
        out
    }
}

/// Where the reading of the command line stands after some of its arguments.
pub struct ArgState {
    pub config: RunConfigView,
    /// Whether the last argument was a `-t` whose token is still to come.
    pub awaits_token: bool,
}

/// Nothing was asked for yet.
pub open spec fn initial_args() -> ArgState {
    ArgState {
        config: RunConfigView {
            debug_enabled: false,
            listen_enabled: false,
            server_url: None,
            ws_token: None,
        },
        awaits_token: false,
    }
}

/// The arguments that are options and so never a token.
pub open spec fn is_option(arg: Seq<char>) -> bool {
    arg == "-l"@ || arg == "-d"@ || arg == "debug"@ || arg == "-t"@
}

/// One argument more.
pub open spec fn read_arg(state: ArgState, arg: Seq<char>) -> Result<ArgState, Seq<char>> {
    let config = state.config;
    if state.awaits_token {
        if is_option(arg) {
            Err("missing websocket token after -t"@)
        } else if arg.len() == 0 {
            Err("websocket token after -t must not be empty"@)
        } else if config.ws_token is Some {
            Err("multiple websocket token values are not supported"@)
        } else {
            Ok(
                ArgState {
                    config: RunConfigView { ws_token: Some(arg), ..config },
                    awaits_token: false,
                },
            )
        }
    } else if arg == "debug"@ || arg == "-d"@ {
        Ok(ArgState { config: RunConfigView { debug_enabled: true, ..config }, ..state })
    } else if arg == "-l"@ {
        Ok(ArgState { config: RunConfigView { listen_enabled: true, ..config }, ..state })
    } else if arg == "-t"@ {
        Ok(ArgState { awaits_token: true, ..state })
    } else if arg.len() > 0 && arg[0] == '-' {
        Err("unknown flag: "@ + arg)
    } else if config.server_url is Some {
        Err("multiple websocket_server_url values are not supported"@)
    } else {
        Ok(ArgState { config: RunConfigView { server_url: Some(arg), ..config }, ..state })
    }
}

/// The arguments one after the other; the first error ends the reading.
pub open spec fn read_args(state: ArgState, args: Seq<Seq<char>>) -> Result<ArgState, Seq<char>>
    decreases args.len(),
{
    if args.len() == 0 {
        Ok(state)
    } else {
        match read_args(state, args.drop_last()) {
            Ok(next) => read_arg(next, args.last()),
            Err(e) => Err(e),
        }
    }
}

/// What the arguments after the program's name ask for.
pub open spec fn parsed(args: Seq<Seq<char>>) -> Result<RunConfigView, Seq<char>> {
    match read_args(initial_args(), args) {
        Err(e) => Err(e),
        Ok(state) => {
            if state.awaits_token {
                Err("missing websocket token after -t"@)
            } else if !state.config.listen_enabled && state.config.server_url is None {
                Err("either -l or websocket_server_url is required"@)
            } else {
                Ok(state.config)
            }
        },
    }
}

/// The program's name: the first argument, or a fixed name where there is none.
pub open spec fn program_of(args: Seq<Seq<char>>) -> Seq<char> {
    if args.len() > 0 {
        args[0]
    } else {
        "client-rust"@
    }
}

/// The arguments after the program's name.
pub open spec fn options_of(args: Seq<Seq<char>>) -> Seq<Seq<char>> {
    if args.len() > 0 {
        args.drop_first()
    } else {
        args
    }
}

proof fn lemma_error_stays(state: ArgState, args: Seq<Seq<char>>, n: int)
    requires
        0 <= n <= args.len(),
        read_args(state, args.take(n)) is Err,
    ensures
        read_args(state, args) == read_args(state, args.take(n)),
    decreases args.len(),
{
    if n == args.len() {
        assert(args.take(n) =~= args);
    } else {
        assert(args.drop_last().take(n) =~= args.take(n));
        lemma_error_stays(state, args.drop_last(), n);
    }
}

/// Reads the command line: the program's name, and what it is asked to do.
pub fn parse_args(args: Vec<String>) -> (r: Result<(String, RunConfig), String>)
    ensures
        r is Ok <==> parsed(options_of(texts(args@))) is Ok,
        r is Ok ==> r->Ok_0.0@ == program_of(texts(args@)) && r->Ok_0.1@ == parsed(
            options_of(texts(args@)),
        )->Ok_0,
        r is Err ==> r->Err_0@ == parsed(options_of(texts(args@)))->Err_0,
{
    let ghost options = options_of(texts(args@));
    let program: String = if args.len() > 0 {
        args[0].clone()
    } else {
        "client-rust".to_string()
    };
    let mut debug_enabled = false;
    let mut listen_enabled = false;
    let mut server_url: Option<String> = None;
    let mut ws_token: Option<String> = None;
    let mut awaits_token = false;
    let mut i: usize = if args.len() > 0 {
        1
    } else {
        0
    };
    let start: usize = i;
    assert(options.take(0) =~= Seq::<Seq<char>>::empty());
    while i < args.len()
        invariant
            start <= i <= args.len(),
            start == (if args.len() > 0 {
                1int
            } else {
                0int
            }),
            options == options_of(texts(args@)),
            options.len() == args.len() - start,
            read_args(initial_args(), options.take(i - start)) == Ok::<ArgState, Seq<char>>(
                ArgState {
                    config: RunConfigView {
                        debug_enabled,
                        listen_enabled,
                        server_url: opt_text(server_url),
                        ws_token: opt_text(ws_token),
                    },
                    awaits_token,
                },
            ),
        decreases args.len() - i,
    {
        let arg = args[i].clone();
        proof {
            let n = i + 1 - start;
            assert(options[i - start] == arg@);
            assert(options.take(n).drop_last() =~= options.take(n - 1));
            assert(options.take(n).last() == arg@);
            if read_args(initial_args(), options.take(n)) is Err {
                lemma_error_stays(initial_args(), options, n);
            }
        }
        if awaits_token {
            if same(&arg, "-l") || same(&arg, "-d") || same(&arg, "debug") || same(&arg, "-t") {
                return Err("missing websocket token after -t".to_string());
            }
            if arg.as_str().is_empty() {
                return Err("websocket token after -t must not be empty".to_string());
            }
            if ws_token.is_some() {
                return Err("multiple websocket token values are not supported".to_string());
            }
            ws_token = Some(arg);
            awaits_token = false;
        } else if same(&arg, "debug") || same(&arg, "-d") {
            debug_enabled = true;
        } else if same(&arg, "-l") {
            listen_enabled = true;
        } else if same(&arg, "-t") {
            awaits_token = true;
        } else if begins_with(&arg, "-") {
            proof {
                reveal_strlit("-");
                assert(arg@.subrange(0, 1)[0] == arg@[0]);
            }
            let mut message = "unknown flag: ".to_string();
            message.append(&arg);
            return Err(message);
        } else {
            proof {
                reveal_strlit("-");
                if arg@.len() > 0 && arg@[0] == '-' {
                    assert(arg@.subrange(0, 1) =~= "-"@);
                }
            }
            if server_url.is_some() {
                return Err(
                    "multiple websocket_server_url values are not supported".to_string(),
                );
            }
            server_url = Some(arg);
        }
        i += 1;
    }
    assert(options.take(options.len() as int) =~= options);
    if awaits_token {
        return Err("missing websocket token after -t".to_string());
    }
    if !listen_enabled && server_url.is_none() {
        return Err("either -l or websocket_server_url is required".to_string());
    }
    Ok((program, RunConfig { debug_enabled, listen_enabled, server_url, ws_token }))
}

/// The usage line of the program named `program`.
pub fn usage(program: &str) -> (r: String)
    ensures
        r@ == "usage: "@ + program@
            + " [debug|-d] [-l] [-t websocket_token] [websocket_server_url]"@,
{
    let mut out = "usage: ".to_string();
    out.append(program);
    out.append(" [debug|-d] [-l] [-t websocket_token] [websocket_server_url]");
    out
}

// ---------------------------------------------------------------------------------------------
// Laws

/// Two configurations that differ in nothing but the characters of the token print alike: what
/// is printed tells the token's length and nothing else of it.
pub proof fn law_debug_text_masks_token(a: RunConfigView, b: RunConfigView)
    requires
        a.debug_enabled == b.debug_enabled,
        a.listen_enabled == b.listen_enabled,
        a.server_url == b.server_url,
        a.ws_token is Some,
        b.ws_token is Some,
        a.ws_token->0.len() == b.ws_token->0.len(),
    ensures
        debug_text_of(a) == debug_text_of(b),
{
}

/// The configuration with debug logging switched on.
pub open spec fn with_debug(c: RunConfigView) -> RunConfigView {
    RunConfigView { debug_enabled: true, ..c }
}

proof fn lemma_read_args_concat(state: ArgState, a: Seq<Seq<char>>, b: Seq<Seq<char>>)
    ensures
        read_args(state, a + b) == (match read_args(state, a) {
            Ok(next) => read_args(next, b),
            Err(e) => Err(e),
        }),
    decreases b.len(),
{
    if b.len() == 0 {
        assert(a + b =~= a);
    } else {
        lemma_read_args_concat(state, a, b.drop_last());
        assert((a + b).drop_last() =~= a + b.drop_last());
    }
}

proof fn lemma_read_args_with_debug(state: ArgState, args: Seq<Seq<char>>)
    ensures
        read_args(ArgState { config: with_debug(state.config), ..state }, args) == (match read_args(
            state,
            args,
        ) {
            Ok(next) => Ok(ArgState { config: with_debug(next.config), ..next }),
            Err(e) => Err(e),
        }),
    decreases args.len(),
{
    if args.len() > 0 {
        lemma_read_args_with_debug(state, args.drop_last());
    }
}

/// The debug switch may stand anywhere but where a token is expected: it switches debug logging
/// on and changes nothing else, neither the rest of the configuration nor the error.
pub proof fn law_debug_switch_anywhere(
    before: Seq<Seq<char>>,
    switch: Seq<char>,
    after: Seq<Seq<char>>,
)
    requires
        switch == "debug"@ || switch == "-d"@,
        read_args(initial_args(), before) is Ok ==> !read_args(
            initial_args(),
            before,
        )->Ok_0.awaits_token,
    ensures
        parsed(before.push(switch) + after) == (match parsed(before + after) {
            Ok(c) => Ok(with_debug(c)),
            Err(e) => Err(e),
        }),
{
    lemma_read_args_concat(initial_args(), before, after);
    lemma_read_args_concat(initial_args(), before.push(switch), after);
    assert(before.push(switch).drop_last() =~= before);
    assert(before.push(switch).last() == switch);
    if let Ok(state) = read_args(initial_args(), before) {
        lemma_read_args_with_debug(state, after);
    }
}

/// An accepted command line gives the process something to do: it listens, or it has a server
/// to connect to.
pub proof fn law_accepted_has_a_role(args: Seq<Seq<char>>)
    ensures
        parsed(args) is Ok ==> parsed(args)->Ok_0.listen_enabled
            || parsed(args)->Ok_0.server_url is Some,
{
}

/// A token that was accepted is not empty.
pub proof fn law_accepted_token_is_not_empty(args: Seq<Seq<char>>)
    ensures
        parsed(args) is Ok && parsed(args)->Ok_0.ws_token is Some ==> parsed(
            args,
        )->Ok_0.ws_token->0.len() > 0,
{
    lemma_token_is_not_empty(args);
}

proof fn lemma_token_is_not_empty(args: Seq<Seq<char>>)
    ensures
        read_args(initial_args(), args) is Ok ==> (read_args(
            initial_args(),
            args,
        )->Ok_0.config.ws_token matches Some(token) ==> token.len() > 0),
    decreases args.len(),
{
    if args.len() > 0 {
        lemma_token_is_not_empty(args.drop_last());
    }
}

/// A switch, by itself one unit of a command line.
pub open spec fn is_switch(arg: Seq<char>) -> bool {
    arg == "debug"@ || arg == "-d"@ || arg == "-l"@
}

/// The units that a command line is made of: a switch, a `-t` with its token, or a server.
pub open spec fn is_unit(unit: Seq<Seq<char>>) -> bool {
    if unit.len() == 2 {
        unit[0] == "-t"@ && !is_option(unit[1]) && unit[1].len() > 0
    } else {
        unit.len() == 1 && (is_switch(unit[0]) || (!is_option(unit[0]) && !(unit[0].len() > 0
            && unit[0][0] == '-')))
    }
}

/// Whether all of `units` are units.
pub open spec fn all_units(units: Seq<Seq<Seq<char>>>) -> bool {
    forall|i: int| 0 <= i < units.len() ==> is_unit(#[trigger] units[i])
}

/// The command line that `units` make up.
pub open spec fn line_of(units: Seq<Seq<Seq<char>>>) -> Seq<Seq<char>> {
    units.flatten_alt()
}

/// What a command line asks for, whatever the order.
pub struct Asked {
    pub debug: bool,
    pub listen: bool,
    pub tokens: Multiset<Seq<char>>,
    pub servers: Multiset<Seq<char>>,
}

/// What is asked for with one unit more.
pub open spec fn ask(asked: Asked, unit: Seq<Seq<char>>) -> Asked {
    if unit.len() == 2 {
        Asked { tokens: asked.tokens.insert(unit[1]), ..asked }
    } else if unit[0] == "debug"@ || unit[0] == "-d"@ {
        Asked { debug: true, ..asked }
    } else if unit[0] == "-l"@ {
        Asked { listen: true, ..asked }
    } else {
        Asked { servers: asked.servers.insert(unit[0]), ..asked }
    }
}

/// What `units` ask for together.
pub open spec fn asked_by(units: Seq<Seq<Seq<char>>>) -> Asked {
    units.fold_left(
        Asked {
            debug: false,
            listen: false,
            tokens: Multiset::empty(),
            servers: Multiset::empty(),
        },
        |asked: Asked, unit: Seq<Seq<char>>| ask(asked, unit),
    )
}

/// The one text asked for, if there is one.
pub open spec fn only(texts: Multiset<Seq<char>>) -> Option<Seq<char>> {
    if texts.len() == 0 {
        None
    } else {
        Some(texts.choose())
    }
}

/// Whether no more than one token and one server are asked for.
pub open spec fn is_unambiguous(asked: Asked) -> bool {
    asked.tokens.len() <= 1 && asked.servers.len() <= 1
}

/// The configuration that an unambiguous wish stands for.
pub open spec fn config_of(asked: Asked) -> RunConfigView {
    RunConfigView {
        debug_enabled: asked.debug,
        listen_enabled: asked.listen,
        server_url: only(asked.servers),
        ws_token: only(asked.tokens),
    }
}

proof fn lemma_one_text_more(texts: Multiset<Seq<char>>, text: Seq<char>)
    ensures
        texts.insert(text).len() == texts.len() + 1,
        texts.len() == 0 ==> only(texts.insert(text)) == Some(text),
{
    broadcast use vstd::multiset::group_multiset_axioms;
    broadcast use vstd::multiset::group_multiset_properties;

    let more = texts.insert(text);
    if texts.len() == 0 {
        assert(more.count(more.choose()) > 0);
        assert(texts =~= Multiset::empty());
    }
}

/// Reading units one after the other gives what they ask for together, or says what was asked
/// for twice.
proof fn lemma_reading_units(units: Seq<Seq<Seq<char>>>)
    requires
        all_units(units),
    ensures
        ({
            let asked = asked_by(units);
            match read_args(initial_args(), line_of(units)) {
                Ok(state) => is_unambiguous(asked) && state == (ArgState {
                    config: config_of(asked),
                    awaits_token: false,
                }),
                Err(e) => {
                    ||| asked.tokens.len() > 1 && e
                        == "multiple websocket token values are not supported"@
                    ||| asked.servers.len() > 1 && e
                        == "multiple websocket_server_url values are not supported"@
                },
            }
        }),
    decreases units.len(),
{
    broadcast use vstd::multiset::group_multiset_axioms;

    if units.len() > 0 {
        let head = units.drop_last();
        let unit = units.last();
        assert(is_unit(units[units.len() - 1]));
        assert(all_units(head)) by {
            assert forall|i: int| 0 <= i < head.len() implies is_unit(#[trigger] head[i]) by {
                assert(head[i] == units[i]);
            }
        }
        lemma_reading_units(head);
        lemma_read_args_concat(initial_args(), line_of(head), unit);
        let asked = asked_by(head);
        assert(asked_by(units) == ask(asked, unit));
        reveal_strlit("-t");
        reveal_strlit("-l");
        reveal_strlit("-d");
        reveal_strlit("debug");
        assert("-t"@[1] == 't' && "-l"@[1] == 'l' && "-d"@[1] == 'd' && "debug"@[1] == 'e');
        if unit.len() == 2 {
            lemma_one_text_more(asked.tokens, unit[1]);
        } else {
            lemma_one_text_more(asked.servers, unit[0]);
        }
        if let Ok(state) = read_args(initial_args(), line_of(head)) {
            if unit.len() == 2 {
                assert(unit.drop_last().drop_last() =~= Seq::empty());
                assert(unit.drop_last().last() == unit[0]);
                assert(read_args(state, unit.drop_last().drop_last()) == Ok::<
                    ArgState,
                    Seq<char>,
                >(state));
                assert(read_args(state, unit.drop_last()) == read_arg(state, "-t"@));
            } else {
                assert(unit.drop_last() =~= Seq::empty());
                assert(read_args(state, unit.drop_last()) == Ok::<ArgState, Seq<char>>(state));
            }
        }
    }
}

/// The units of a command line may stand in any order: two orders of the same units are both
/// accepted with the same configuration, or both refused. They are refused with the same words
/// unless both the token and the server were given more than once: then the words name the one
/// that the order shows first.
pub proof fn law_units_may_stand_in_any_order(
    a: Seq<Seq<Seq<char>>>,
    b: Seq<Seq<Seq<char>>>,
)
    requires
        all_units(a),
        a.to_multiset() == b.to_multiset(),
    ensures
        parsed(line_of(a)) is Ok <==> parsed(line_of(b)) is Ok,
        parsed(line_of(a)) matches Ok(config) ==> is_unambiguous(asked_by(a)) && config == config_of(
            asked_by(a),
        ),
        asked_by(a).tokens.len() <= 1 || asked_by(a).servers.len() <= 1 ==> parsed(line_of(a))
            == parsed(line_of(b)),
{
    assert(all_units(b)) by {
        assert forall|i: int| 0 <= i < b.len() implies is_unit(#[trigger] b[i]) by {
            vstd::seq_lib::to_multiset_contains(b, b[i]);
            vstd::seq_lib::to_multiset_contains(a, b[i]);
            assert(b.contains(b[i]));
            let j = choose|j: int| 0 <= j < a.len() && a[j] == b[i];
            assert(is_unit(a[j]));
        }
    }
    lemma_asking_commutes();
    vstd::seq_lib::lemma_fold_left_permutation(
        a,
        b,
        |asked: Asked, unit: Seq<Seq<char>>| ask(asked, unit),
        Asked {
            debug: false,
            listen: false,
            tokens: Multiset::empty(),
            servers: Multiset::empty(),
        },
    );
    lemma_reading_units(a);
    lemma_reading_units(b);
}

proof fn lemma_asking_commutes()
    ensures
        vstd::seq_lib::commutative_foldl(
            |asked: Asked, unit: Seq<Seq<char>>| ask(asked, unit),
        ),
{
    broadcast use vstd::multiset::group_multiset_axioms;

    let f = |asked: Asked, unit: Seq<Seq<char>>| ask(asked, unit);
    assert forall|x: Seq<Seq<char>>, y: Seq<Seq<char>>, v: Asked| #[trigger]
        f(f(v, x), y) == f(f(v, y), x) by {
        let one = ask(ask(v, x), y);
        let other = ask(ask(v, y), x);
        assert(one.tokens =~= other.tokens);
        assert(one.servers =~= other.servers);
    }
}

proof fn lemma_line_of_concat(a: Seq<Seq<Seq<char>>>, b: Seq<Seq<Seq<char>>>)
    ensures
        line_of(a + b) == line_of(a) + line_of(b),
    decreases b.len(),
{
    if b.len() == 0 {
        assert(a + b =~= a);
        assert(line_of(a) + line_of(b) =~= line_of(a));
    } else {
        lemma_line_of_concat(a, b.drop_last());
        assert((a + b).drop_last() =~= a + b.drop_last());
        assert(line_of(a + b) =~= line_of(a) + line_of(b));
    }
}

proof fn lemma_read_args_with_listen(state: ArgState, args: Seq<Seq<char>>)
    ensures
        read_args(
            ArgState { config: RunConfigView { listen_enabled: true, ..state.config }, ..state },
            args,
        ) == (match read_args(state, args) {
            Ok(next) => Ok(
                ArgState { config: RunConfigView { listen_enabled: true, ..next.config }, ..next },
            ),
            Err(e) => Err(e),
        }),
    decreases args.len(),
{
    if args.len() > 0 {
        lemma_read_args_with_listen(state, args.drop_last());
    }
}

/// A switch may be repeated: where its effect is asked for already, in whichever spelling, the
/// switch once more changes nothing, wherever it stands between the units.
pub proof fn law_switches_may_be_repeated(
    units: Seq<Seq<Seq<char>>>,
    i: int,
    switch: Seq<char>,
)
    requires
        all_units(units),
        0 <= i <= units.len(),
        is_switch(switch),
        if switch == "-l"@ {
            asked_by(units).listen
        } else {
            asked_by(units).debug
        },
    ensures
        parsed(line_of(units.insert(i, seq![switch]))) == parsed(line_of(units)),
{
    let before = units.take(i);
    let after = units.skip(i);
    assert(units =~= before + after);
    assert(units.insert(i, seq![switch]) =~= before + seq![seq![switch]] + after);
    lemma_line_of_concat(before, after);
    lemma_line_of_concat(before, seq![seq![switch]]);
    lemma_line_of_concat(before + seq![seq![switch]], after);
    assert(line_of(seq![seq![switch]]) =~= seq![switch]) by {
        assert(seq![seq![switch]].drop_last() =~= Seq::empty());
        assert(line_of(seq![seq![switch]].drop_last()) =~= Seq::empty());
    }
    assert(all_units(before)) by {
        assert forall|j: int| 0 <= j < before.len() implies is_unit(#[trigger] before[j]) by {
            assert(before[j] == units[j]);
        }
    }
    lemma_reading_units(before);
    lemma_reading_units(units);
    lemma_read_args_concat(initial_args(), line_of(before), line_of(after));
    lemma_read_args_concat(initial_args(), line_of(before), seq![switch]);
    lemma_read_args_concat(initial_args(), line_of(before) + seq![switch], line_of(after));
    if let Ok(state) = read_args(initial_args(), line_of(before)) {
        assert(seq![switch].drop_last() =~= Seq::empty());
        assert(read_args(state, seq![switch].drop_last()) == Ok::<ArgState, Seq<char>>(state));
        assert(read_args(state, seq![switch]) == read_arg(state, switch));
        reveal_strlit("-l");
        reveal_strlit("-d");
        reveal_strlit("debug");
        assert("-l"@[1] == 'l' && "-d"@[1] == 'd' && "debug"@[1] == 'e');
        lemma_read_args_with_debug(state, line_of(after));
        lemma_read_args_with_listen(state, line_of(after));
    }
}

/// The two spellings of the debug switch mean the same, wherever it stands between the units.
pub proof fn law_debug_switch_has_two_spellings(
    before: Seq<Seq<Seq<char>>>,
    after: Seq<Seq<Seq<char>>>,
)
    requires
        all_units(before),
    ensures
        parsed(line_of(before) + seq!["debug"@] + line_of(after)) == parsed(
            line_of(before) + seq!["-d"@] + line_of(after),
        ),
{
    lemma_reading_units(before);
    law_debug_switch_anywhere(line_of(before), "debug"@, line_of(after));
    law_debug_switch_anywhere(line_of(before), "-d"@, line_of(after));
    assert(line_of(before).push("debug"@) =~= line_of(before) + seq!["debug"@]);
    assert(line_of(before).push("-d"@) =~= line_of(before) + seq!["-d"@]);
}

/// Whether `args` can be taken apart into units.
pub open spec fn is_made_of_units(args: Seq<Seq<char>>) -> bool {
    exists|units: Seq<Seq<Seq<char>>>| all_units(units) && #[trigger] line_of(units) == args
}

/// Every command line that is accepted is made of units.
pub proof fn law_accepted_line_is_made_of_units(args: Seq<Seq<char>>)
    ensures
        parsed(args) is Ok ==> is_made_of_units(args),
{
    if parsed(args) is Ok {
        lemma_made_of_units(args);
    }
}

proof fn lemma_made_of_units(args: Seq<Seq<char>>)
    requires
        read_args(initial_args(), args) is Ok,
    ensures
        ({
            let state = read_args(initial_args(), args)->Ok_0;
            if state.awaits_token {
                args.len() > 0 && args.last() == "-t"@ && is_made_of_units(args.drop_last())
            } else {
                is_made_of_units(args)
            }
        }),
    decreases args.len(),
{
    if args.len() == 0 {
        let none = Seq::<Seq<Seq<char>>>::empty();
        assert(all_units(none) && line_of(none) =~= args);
    } else {
        let head = args.drop_last();
        let state = read_args(initial_args(), head)->Ok_0;
        let arg = args.last();
        lemma_made_of_units(head);
        if state.awaits_token {
            let units = choose|units: Seq<Seq<Seq<char>>>|
                all_units(units) && #[trigger] line_of(units) == head.drop_last();
            let more = units.push(seq!["-t"@, arg]);
            assert(more.drop_last() =~= units);
            assert(line_of(more) =~= args);
            assert(all_units(more));
        } else if !(arg == "-t"@ && read_arg(state, arg)->Ok_0.awaits_token) {
            let units = choose|units: Seq<Seq<Seq<char>>>|
                all_units(units) && #[trigger] line_of(units) == head;
            let more = units.push(seq![arg]);
            assert(more.drop_last() =~= units);
            assert(line_of(more) =~= args);
            assert(all_units(more));
        }
    }
}

/// The arguments are read one after the other, and the first error is the one that is told.
pub proof fn law_arguments_are_read_in_order(
    state: ArgState,
    first: Seq<Seq<char>>,
    rest: Seq<Seq<char>>,
)
    ensures
        read_args(state, Seq::empty()) == Ok::<ArgState, Seq<char>>(state),
        read_args(state, first) is Err ==> read_args(state, first + rest) == read_args(state, first),
        read_args(state, first) matches Ok(next) ==> read_args(state, first + rest) == read_args(
            next,
            rest,
        ),
{
    lemma_read_args_concat(state, first, rest);
}

/// Behind a `-t`, every text that is not empty and no option is the token, as it is; a second token,
/// an empty one, or an option in its place is an error.
pub proof fn law_token_is_taken_as_given(state: ArgState, arg: Seq<char>)
    requires
        state.awaits_token,
    ensures
        arg == "-l"@ || arg == "-d"@ || arg == "debug"@ || arg == "-t"@ ==> read_args(
            state,
            seq![arg],
        ) == Err::<ArgState, Seq<char>>("missing websocket token after -t"@),
        arg != "-l"@ && arg != "-d"@ && arg != "debug"@ && arg != "-t"@ ==> {
            &&& arg.len() == 0 ==> read_args(state, seq![arg]) == Err::<ArgState, Seq<char>>(
                "websocket token after -t must not be empty"@,
            )
            &&& arg.len() > 0 && state.config.ws_token is Some ==> read_args(state, seq![arg])
                == Err::<ArgState, Seq<char>>("multiple websocket token values are not supported"@)
            &&& arg.len() > 0 && state.config.ws_token is None ==> {
                &&& read_args(state, seq![arg]) matches Ok(next)
                &&& next.config.ws_token == Some(arg)
                &&& !next.awaits_token
                &&& next.config.server_url == state.config.server_url
                &&& next.config.debug_enabled == state.config.debug_enabled
                &&& next.config.listen_enabled == state.config.listen_enabled
            }
        },
{
    assert(seq![arg].drop_last() =~= Seq::empty());
    assert(read_args(state, Seq::empty()) == Ok::<ArgState, Seq<char>>(state));
    assert(read_args(state, seq![arg]) == read_arg(state, arg));
}

/// Anywhere else, a text that does not begin with a dash is the server, as it is; the options do
/// what they say and nothing else, and any other text with a dash in front is an error that names it.
pub proof fn law_server_is_taken_as_given(state: ArgState, arg: Seq<char>)
    requires
        !state.awaits_token,
    ensures
        ({
            let r = read_args(state, seq![arg]);
            &&& arg == "debug"@ || arg == "-d"@ ==> r == Ok::<ArgState, Seq<char>>(
                ArgState {
                    config: RunConfigView { debug_enabled: true, ..state.config },
                    awaits_token: false,
                },
            )
            &&& arg == "-l"@ ==> r == Ok::<ArgState, Seq<char>>(
                ArgState {
                    config: RunConfigView { listen_enabled: true, ..state.config },
                    awaits_token: false,
                },
            )
            &&& arg == "-t"@ ==> r == Ok::<ArgState, Seq<char>>(
                ArgState { config: state.config, awaits_token: true },
            )
            &&& arg.len() > 0 && arg[0] == '-' && arg != "-d"@ && arg != "-l"@ && arg != "-t"@ ==> r
                == Err::<ArgState, Seq<char>>("unknown flag: "@ + arg)
            &&& (arg.len() == 0 || arg[0] != '-') && arg != "debug"@ ==> {
                &&& state.config.server_url is Some ==> r == Err::<ArgState, Seq<char>>(
                    "multiple websocket_server_url values are not supported"@,
                )
                &&& state.config.server_url is None ==> r == Ok::<ArgState, Seq<char>>(
                    ArgState {
                        config: RunConfigView { server_url: Some(arg), ..state.config },
                        awaits_token: false,
                    },
                )
            }
        }),
{
    assert(seq![arg].drop_last() =~= Seq::empty());
    assert(read_args(state, Seq::empty()) == Ok::<ArgState, Seq<char>>(state));
    assert(read_args(state, seq![arg]) == read_arg(state, arg));
    reveal_strlit("-t");
    reveal_strlit("-l");
    reveal_strlit("-d");
    reveal_strlit("debug");
    assert("-t"@[0] == '-' && "-l"@[0] == '-' && "-d"@[0] == '-' && "debug"@[0] == 'd');
    assert("-t"@[1] == 't' && "-l"@[1] == 'l' && "-d"@[1] == 'd');
}

/// A command line stands for what its arguments gave, starting from nothing; one that ends with a
/// `-t`, or gives the process nothing to do, is refused. The first argument is the program's name.
pub proof fn law_command_line_stands_for_its_arguments(args: Seq<Seq<char>>, program: Seq<char>)
    ensures
        read_args(initial_args(), args) matches Err(e) ==> parsed(args) == Err::<
            RunConfigView,
            Seq<char>,
        >(e),
        read_args(initial_args(), args) matches Ok(state) ==> {
            &&& state.awaits_token ==> parsed(args) == Err::<RunConfigView, Seq<char>>(
                "missing websocket token after -t"@,
            )
            &&& !state.awaits_token && (state.config.listen_enabled
                || state.config.server_url is Some) ==> parsed(args) == Ok::<
                RunConfigView,
                Seq<char>,
            >(state.config)
            &&& !state.awaits_token && !state.config.listen_enabled
                && state.config.server_url is None ==> parsed(args) == Err::<
                RunConfigView,
                Seq<char>,
            >("either -l or websocket_server_url is required"@)
        },
        initial_args().config == (RunConfigView {
            debug_enabled: false,
            listen_enabled: false,
            server_url: None,
            ws_token: None,
        }),
        !initial_args().awaits_token,
        program_of(seq![program] + args) == program,
        options_of(seq![program] + args) == args,
        program_of(Seq::empty()) == "client-rust"@,
        options_of(Seq::empty()).len() == 0,
{
    assert((seq![program] + args).drop_first() =~= args);
}

/// The printed configuration tells everything but the token, of which it tells the length.
pub proof fn law_configuration_is_printed(c: RunConfigView, url: Seq<char>, config: RunConfig)
    ensures
        ({
            let head = "RunConfig { debug_enabled: "@ + (if c.debug_enabled {
                "true"@
            } else {
                "false"@
            }) + ", listen_enabled: "@ + (if c.listen_enabled {
                "true"@
            } else {
                "false"@
            }) + ", server_url: "@;
            let tail = ", ws_token: "@ + (if c.ws_token is Some {
                "Some(\""@ + stars(c.ws_token->0.len()) + "\")"@
            } else {
                "None"@
            }) + " }"@;
            &&& debug_text_with(c, Some(url)) == head + ("Some("@ + url + ")"@) + tail
            &&& debug_text_with(c, None) == head + "None"@ + tail
        }),
        debug_text_of(c) == debug_text_with(
            c,
            if c.server_url is Some {
                Some(debug_format(c.server_url->0))
            } else {
                None
            },
        ),
        forall|n: nat| (#[trigger] stars(n)).len() == n,
        forall|n: nat, i: int| 0 <= i < n ==> #[trigger] stars(n)[i] == '*',
        config@.debug_enabled == config.debug_enabled && config@.listen_enabled
            == config.listen_enabled && config@.server_url == opt_text(config.server_url)
            && config@.ws_token == opt_text(config.ws_token),
{
    let head = "RunConfig { debug_enabled: "@ + (if c.debug_enabled {
        "true"@
    } else {
        "false"@
    }) + ", listen_enabled: "@ + (if c.listen_enabled {
        "true"@
    } else {
        "false"@
    }) + ", server_url: "@;
    let tail = ", ws_token: "@ + (if c.ws_token is Some {
        "Some(\""@ + stars(c.ws_token->0.len()) + "\")"@
    } else {
        "None"@
    }) + " }"@;
    assert(debug_text_with(c, Some(url)) =~= head + ("Some("@ + url + ")"@) + tail);
    assert(debug_text_with(c, None) =~= head + "None"@ + tail);
}

/// The command line is read, and the configuration printed, as the laws about them say.
pub proof fn law_command_line_is_read(
    args: Vec<String>,
    r: Result<(String, RunConfig), String>,
    config: RunConfig,
    shown: Option<String>,
    text: String,
    program: &str,
)
    ensures
        call_ensures(parse_args, (args,), r) ==> match parsed(options_of(texts(args@))) {
            Ok(asked) => r matches Ok((name, given)) && name@ == program_of(texts(args@)) && given@
                == asked,
            Err(e) => r matches Err(err) && err@ == e,
        },
        call_ensures(RunConfig::debug_text, (&config,), text) ==> text@ == debug_text_of(config@),
        call_ensures(RunConfig::debug_text_showing, (&config, shown), text) ==> text@
            == debug_text_with(config@, opt_text(shown)),
        call_ensures(usage, (program,), text) ==> text@ == "usage: "@ + program@
            + " [debug|-d] [-l] [-t websocket_token] [websocket_server_url]"@,
{
}

} // verus!
