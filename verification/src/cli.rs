//! The arguments of the programs.

use vstd::prelude::*;

use crate::config::{IrohConfig, SubsonicConfig};
use crate::error::{invalid_request, outcome, Error, ErrorModel};
use crate::text::{is_blank, law_trimming, push_text, same_text, trimmed};

verus! {

/// What the arguments of the server say.
pub struct ServerArgs {
    pub music_dir: String,
    pub lastfm_api_key: Option<String>,
    pub iroh: IrohConfig,
}

/// The mathematical value of [`ServerArgs`], in which the music directory may be missing.
pub struct ServerArgsModel {
    pub music_dir: Option<Seq<char>>,
    pub lastfm_api_key: Option<Seq<char>>,
    pub secret: Option<Seq<char>>,
    pub relay: Option<Seq<char>>,
    pub peers: Seq<Seq<char>>,
}

impl DeepView for ServerArgs {
    type V = ServerArgsModel;

    open spec fn deep_view(&self) -> ServerArgsModel {
        ServerArgsModel {
            music_dir: Some(self.music_dir@),
            lastfm_api_key: self.lastfm_api_key.deep_view(),
            secret: self.iroh.secret.deep_view(),
            relay: self.iroh.relay.deep_view(),
            peers: self.iroh.peers.deep_view(),
        }
    }
}

/// The mathematical value of a [`SubsonicConfig`].
pub struct SubsonicConfigModel {
    pub bind: Seq<char>,
    pub endpoint: Seq<char>,
    pub ticket: Option<Seq<char>>,
    pub relay: Option<Seq<char>>,
    pub secret: Option<Seq<char>>,
    pub username: Seq<char>,
    pub password: Seq<char>,
}

impl DeepView for SubsonicConfig {
    type V = SubsonicConfigModel;

    open spec fn deep_view(&self) -> SubsonicConfigModel {
        SubsonicConfigModel {
            bind: self.bind@,
            endpoint: self.endpoint@,
            ticket: self.ticket.deep_view(),
            relay: self.relay.deep_view(),
            secret: self.secret.deep_view(),
            username: self.username@,
            password: self.password@,
        }
    }
}

/// The error for a flag without its value.
pub open spec fn missing() -> ErrorModel {
    ErrorModel::InvalidRequest("missing value for flag"@)
}

/// The error for an argument that is no flag.
pub open spec fn unknown(arg: Seq<char>) -> ErrorModel {
    ErrorModel::InvalidRequest("unknown argument: "@ + arg)
}

/// The error for a flag without its value.
pub fn missing_value() -> (r: Error)
    ensures
        r.deep_view() == missing(),
{
    invalid_request("missing value for flag")
}

fn unknown_argument(arg: &str) -> (r: Error)
    ensures
        r.deep_view() == unknown(arg@),
{
    let mut reason = "unknown argument: ".to_owned();
    push_text(&mut reason, arg);
    Error::InvalidRequest(reason)
}

/// The settings that the first flag of some arguments gives, with the value behind it.
pub open spec fn server_flag(
    so_far: ServerArgsModel,
    flag: Seq<char>,
    value: Seq<char>,
) -> Option<ServerArgsModel> {
    if flag == "--lastfm-api-key"@ {
        Some(ServerArgsModel { lastfm_api_key: Some(value), ..so_far })
    } else if flag == "--secret"@ {
        Some(ServerArgsModel { secret: Some(value), ..so_far })
    } else if flag == "--relay"@ {
        Some(ServerArgsModel { relay: Some(value), ..so_far })
    } else if flag == "--peer"@ {
        Some(ServerArgsModel { peers: so_far.peers.push(value), ..so_far })
    } else {
        None
    }
}

/// What the arguments of the server say, beyond what was said before: the value of `--music-dir` may
/// be missing, that of no other flag.
pub open spec fn server_args(args: Seq<Seq<char>>, so_far: ServerArgsModel) -> Result<
    ServerArgsModel,
    ErrorModel,
>
    decreases args.len(),
{
    if args.len() == 0 {
        Ok(so_far)
    } else if args[0] == "--music-dir"@ {
        if args.len() == 1 {
            Ok(ServerArgsModel { music_dir: None, ..so_far })
        } else {
            server_args(args.skip(2), ServerArgsModel { music_dir: Some(args[1]), ..so_far })
        }
    } else if server_flag(so_far, args[0], seq![]) is None {
        Err(unknown(args[0]))
    } else if args.len() == 1 {
        Err(missing())
    } else {
        server_args(args.skip(2), server_flag(so_far, args[0], args[1])->Some_0)
    }
}

/// No arguments.
pub open spec fn no_server_args() -> ServerArgsModel {
    ServerArgsModel {
        music_dir: None,
        lastfm_api_key: None,
        secret: None,
        relay: None,
        peers: seq![],
    }
}

/// What the arguments of the server say: they have to name the music directory.
pub open spec fn server_config(args: Seq<Seq<char>>) -> Result<ServerArgsModel, ErrorModel> {
    match server_args(args, no_server_args()) {
        Err(error) => Err(error),
        Ok(said) => if said.music_dir is None {
            Err(ErrorModel::InvalidRequest("expected --music-dir /path/to/music"@))
        } else {
            Ok(said)
        },
    }
}

/// What the arguments of the server say.
pub fn parse_server_config(args: &Vec<String>) -> (r: Result<ServerArgs, Error>)
    ensures
        outcome(r) == server_config(args.deep_view()),
{
    let ghost all = args.deep_view();
    let total: usize = args.len();
    let mut music_dir: Option<String> = None;
    let mut lastfm_api_key: Option<String> = None;
    let mut iroh = IrohConfig::default();
    let mut i: usize = 0;
    proof {
        assert(all.skip(0) =~= all);
        assert(iroh.peers.deep_view() =~= seq![]);
    }
    while i < total
        invariant
            i <= total,
            total == args@.len(),
            all == args.deep_view(),
            server_args(all, no_server_args()) == server_args(
                all.skip(i as int),
                ServerArgsModel {
                    music_dir: music_dir.deep_view(),
                    lastfm_api_key: lastfm_api_key.deep_view(),
                    secret: iroh.secret.deep_view(),
                    relay: iroh.relay.deep_view(),
                    peers: iroh.peers.deep_view(),
                },
            ),
        decreases total - i,
    {
        let flag = &args[i];
        let ghost rest = all.skip(i as int);
        let ghost before = iroh.peers.deep_view();
        proof {
            assert(rest[0] == flag@);
            assert(rest.len() == total - i);
            if rest.len() >= 2 {
                assert(rest[1] == all[i + 1]);
                assert(rest.skip(2) =~= all.skip(i + 2));
            }
        }
        if same_text(flag, "--music-dir") {
            if total - i < 2 {
                return Err(invalid_request("expected --music-dir /path/to/music"));
            }
            music_dir = Some(args[i + 1].clone());
        } else if same_text(flag, "--lastfm-api-key") {
            if total - i < 2 {
                return Err(missing_value());
            }
            lastfm_api_key = Some(args[i + 1].clone());
        } else if same_text(flag, "--secret") {
            if total - i < 2 {
                return Err(missing_value());
            }
            iroh.secret = Some(args[i + 1].clone());
        } else if same_text(flag, "--relay") {
            if total - i < 2 {
                return Err(missing_value());
            }
            iroh.relay = Some(args[i + 1].clone());
        } else if same_text(flag, "--peer") {
            if total - i < 2 {
                return Err(missing_value());
            }
            iroh.peers.push(args[i + 1].clone());
            assert(iroh.peers.deep_view() =~= before.push(all[i + 1]));
        } else {
            return Err(unknown_argument(flag));
        }
        i = i + 2;
    }
    match music_dir {
        Some(music_dir) => Ok(ServerArgs { music_dir, lastfm_api_key, iroh }),
        None => Err(invalid_request("expected --music-dir /path/to/music")),
    }
}

/// The settings that a flag of the Subsonic frontend gives, with the value behind it.
pub open spec fn subsonic_flag(
    so_far: SubsonicConfigModel,
    flag: Seq<char>,
    value: Seq<char>,
) -> Option<SubsonicConfigModel> {
    if flag == "--bind"@ {
        Some(SubsonicConfigModel { bind: value, ..so_far })
    } else if flag == "--endpoint"@ {
        Some(SubsonicConfigModel { endpoint: value, ..so_far })
    } else if flag == "--ticket"@ {
        Some(SubsonicConfigModel { ticket: Some(value), ..so_far })
    } else if flag == "--relay"@ {
        Some(SubsonicConfigModel { relay: Some(value), ..so_far })
    } else if flag == "--secret"@ {
        Some(SubsonicConfigModel { secret: Some(value), ..so_far })
    } else if flag == "--username"@ {
        Some(SubsonicConfigModel { username: value, ..so_far })
    } else if flag == "--password"@ {
        Some(SubsonicConfigModel { password: value, ..so_far })
    } else {
        None
    }
}

/// What the arguments of the Subsonic frontend say, beyond what was said before.
pub open spec fn subsonic_args(args: Seq<Seq<char>>, so_far: SubsonicConfigModel) -> Result<
    SubsonicConfigModel,
    ErrorModel,
>
    decreases args.len(),
{
    if args.len() == 0 {
        Ok(so_far)
    } else if subsonic_flag(so_far, args[0], seq![]) is None {
        Err(unknown(args[0]))
    } else if args.len() == 1 {
        Err(missing())
    } else {
        subsonic_args(args.skip(2), subsonic_flag(so_far, args[0], args[1])->Some_0)
    }
}

/// The settings of the Subsonic frontend where nothing is said.
pub open spec fn subsonic_default() -> SubsonicConfigModel {
    SubsonicConfigModel {
        bind: "127.0.0.1:4040"@,
        endpoint: seq![],
        ticket: None,
        relay: None,
        secret: None,
        username: "admin"@,
        password: "admin"@,
    }
}

/// Whether a text is missing or blank.
pub open spec fn is_missing(text: Option<Seq<char>>) -> bool {
    text matches Some(text) ==> trimmed(text).len() == 0
}

/// The settings that the arguments of the Subsonic frontend give: they have to name the backend.
pub open spec fn subsonic_config(args: Seq<Seq<char>>) -> Result<SubsonicConfigModel, ErrorModel> {
    match subsonic_args(args, subsonic_default()) {
        Err(error) => Err(error),
        Ok(said) => if trimmed(said.endpoint).len() == 0 && is_missing(said.ticket) {
            Err(ErrorModel::InvalidRequest("expected --endpoint or --ticket"@))
        } else {
            Ok(said)
        },
    }
}

fn ticket_missing(ticket: &Option<String>) -> (r: bool)
    ensures
        r == is_missing(ticket.deep_view()),
{
    match ticket {
        Some(ticket) => is_blank(ticket),
        None => true,
    }
}

/// The settings that the arguments of the Subsonic frontend give.
pub fn parse_config(args: &Vec<String>) -> (r: Result<SubsonicConfig, Error>)
    ensures
        outcome(r) == subsonic_config(args.deep_view()),
{
    let ghost all = args.deep_view();
    let total: usize = args.len();
    let mut config = SubsonicConfig::default();
    let mut i: usize = 0;
    proof {
        assert(all.skip(0) =~= all);
        assert(config.deep_view() == subsonic_default());
    }
    while i < total
        invariant
            i <= total,
            total == args@.len(),
            all == args.deep_view(),
            subsonic_args(all, subsonic_default()) == subsonic_args(
                all.skip(i as int),
                config.deep_view(),
            ),
        decreases total - i,
    {
        let flag = &args[i];
        let ghost rest = all.skip(i as int);
        proof {
            assert(rest[0] == flag@);
            assert(rest.len() == total - i);
            if rest.len() >= 2 {
                assert(rest[1] == all[i + 1]);
                assert(rest.skip(2) =~= all.skip(i + 2));
            }
        }
        if same_text(flag, "--bind") {
            if total - i < 2 {
                return Err(missing_value());
            }
            config.bind = args[i + 1].clone();
        } else if same_text(flag, "--endpoint") {
            if total - i < 2 {
                return Err(missing_value());
            }
            config.endpoint = args[i + 1].clone();
        } else if same_text(flag, "--ticket") {
            if total - i < 2 {
                return Err(missing_value());
            }
            config.ticket = Some(args[i + 1].clone());
        } else if same_text(flag, "--relay") {
            if total - i < 2 {
                return Err(missing_value());
            }
            config.relay = Some(args[i + 1].clone());
        } else if same_text(flag, "--secret") {
            if total - i < 2 {
                return Err(missing_value());
            }
            config.secret = Some(args[i + 1].clone());
        } else if same_text(flag, "--username") {
            if total - i < 2 {
                return Err(missing_value());
            }
            config.username = args[i + 1].clone();
        } else if same_text(flag, "--password") {
            if total - i < 2 {
                return Err(missing_value());
            }
            config.password = args[i + 1].clone();
        } else {
            return Err(unknown_argument(flag));
        }
        i = i + 2;
    }
    if is_blank(&config.endpoint) && ticket_missing(&config.ticket) {
        return Err(invalid_request("expected --endpoint or --ticket"));
    }
    Ok(config)
}

proof fn lemma_server_args(args: Seq<Seq<char>>, more: Seq<Seq<char>>, so_far: ServerArgsModel)
    requires
        args.len() % 2 == 0,
    ensures
        server_args(args + more, so_far) == (match server_args(args, so_far) {
            Ok(said) => server_args(more, said),
            Err(error) => Err(error),
        }),
    decreases args.len(),
{
    if args.len() == 0 {
        assert(args + more =~= more);
    } else {
        assert((args + more).skip(2) =~= args.skip(2) + more);
        assert((args + more)[0] == args[0] && (args + more)[1] == args[1]);
        if args[0] == "--music-dir"@ {
            lemma_server_args(
                args.skip(2),
                more,
                ServerArgsModel { music_dir: Some(args[1]), ..so_far },
            );
        } else if server_flag(so_far, args[0], args[1]) is Some {
            lemma_server_args(args.skip(2), more, server_flag(so_far, args[0], args[1])->Some_0);
        }
    }
}

proof fn lemma_subsonic_args(
    args: Seq<Seq<char>>,
    more: Seq<Seq<char>>,
    so_far: SubsonicConfigModel,
)
    requires
        args.len() % 2 == 0,
    ensures
        subsonic_args(args + more, so_far) == (match subsonic_args(args, so_far) {
            Ok(said) => subsonic_args(more, said),
            Err(error) => Err(error),
        }),
    decreases args.len(),
{
    if args.len() == 0 {
        assert(args + more =~= more);
    } else {
        assert((args + more).skip(2) =~= args.skip(2) + more);
        assert((args + more)[0] == args[0] && (args + more)[1] == args[1]);
        if subsonic_flag(so_far, args[0], args[1]) is Some {
            lemma_subsonic_args(args.skip(2), more, subsonic_flag(so_far, args[0], args[1])->Some_0);
        }
    }
}

/// Each flag of the server with a value behind it sets what it names, and nothing else; the last value
/// counts, but for `--peer`, each of which adds a peer.
pub proof fn law_server_flags_set_what_they_name(
    args: Seq<Seq<char>>,
    before: ServerArgsModel,
    value: Seq<char>,
)
    requires
        args.len() % 2 == 0,
        server_config(args) == Ok::<ServerArgsModel, ErrorModel>(before),
    ensures
        server_config(args + seq!["--music-dir"@, value]) matches Ok(after)
            && after.music_dir == Some(value) && after.lastfm_api_key == before.lastfm_api_key
            && after.secret == before.secret && after.relay == before.relay
            && after.peers == before.peers,
        server_config(args + seq!["--lastfm-api-key"@, value]) matches Ok(after)
            && after.lastfm_api_key == Some(value) && after.music_dir == before.music_dir
            && after.secret == before.secret && after.relay == before.relay
            && after.peers == before.peers,
        server_config(args + seq!["--secret"@, value]) matches Ok(after)
            && after.secret == Some(value) && after.music_dir == before.music_dir
            && after.lastfm_api_key == before.lastfm_api_key && after.relay == before.relay
            && after.peers == before.peers,
        server_config(args + seq!["--relay"@, value]) matches Ok(after)
            && after.relay == Some(value) && after.music_dir == before.music_dir
            && after.lastfm_api_key == before.lastfm_api_key && after.secret == before.secret
            && after.peers == before.peers,
        server_config(args + seq!["--peer"@, value]) matches Ok(after)
            && after.peers == before.peers.push(value) && after.music_dir == before.music_dir
            && after.lastfm_api_key == before.lastfm_api_key && after.secret == before.secret
            && after.relay == before.relay,
{
    reveal_strlit("--music-dir");
    reveal_strlit("--lastfm-api-key");
    reveal_strlit("--secret");
    reveal_strlit("--relay");
    reveal_strlit("--peer");
    assert("--music-dir"@.len() == 11);
    assert("--lastfm-api-key"@.len() == 16);
    assert("--secret"@.len() == 8);
    assert("--relay"@.len() == 7);
    assert("--peer"@.len() == 6);
    reveal_with_fuel(server_args, 2);
    lemma_server_args(args, seq!["--music-dir"@, value], no_server_args());
    assert(seq!["--music-dir"@, value].skip(2) =~= Seq::<Seq<char>>::empty());
    lemma_server_args(args, seq!["--lastfm-api-key"@, value], no_server_args());
    assert(seq!["--lastfm-api-key"@, value].skip(2) =~= Seq::<Seq<char>>::empty());
    lemma_server_args(args, seq!["--secret"@, value], no_server_args());
    assert(seq!["--secret"@, value].skip(2) =~= Seq::<Seq<char>>::empty());
    lemma_server_args(args, seq!["--relay"@, value], no_server_args());
    assert(seq!["--relay"@, value].skip(2) =~= Seq::<Seq<char>>::empty());
    lemma_server_args(args, seq!["--peer"@, value], no_server_args());
    assert(seq!["--peer"@, value].skip(2) =~= Seq::<Seq<char>>::empty());
}

/// The music directory has to be named, and nothing else has to; what is not said is not set.
pub proof fn law_server_needs_its_directory(dir: Seq<char>, args: Seq<Seq<char>>)
    ensures
        server_config(Seq::empty()) == Err::<ServerArgsModel, ErrorModel>(
            ErrorModel::InvalidRequest("expected --music-dir /path/to/music"@),
        ),
        server_config(seq!["--music-dir"@, dir]) matches Ok(said) && said.music_dir == Some(dir)
            && said.lastfm_api_key is None && said.secret is None && said.relay is None
            && said.peers.len() == 0,
        (forall|i: int| 0 <= i < args.len() ==> #[trigger] args[i] != "--music-dir"@)
            ==> server_config(args) is Err,
{
    reveal_with_fuel(server_args, 2);
    assert(seq!["--music-dir"@, dir].skip(2) =~= Seq::<Seq<char>>::empty());
    if forall|i: int| 0 <= i < args.len() ==> #[trigger] args[i] != "--music-dir"@ {
        lemma_no_directory(args, no_server_args());
    }
}

proof fn lemma_no_directory(args: Seq<Seq<char>>, so_far: ServerArgsModel)
    requires
        so_far.music_dir is None,
        forall|i: int| 0 <= i < args.len() ==> #[trigger] args[i] != "--music-dir"@,
    ensures
        server_args(args, so_far) matches Ok(said) ==> said.music_dir is None,
    decreases args.len(),
{
    if args.len() >= 2 && server_flag(so_far, args[0], args[1]) is Some {
        let rest = args.skip(2);
        assert forall|i: int| 0 <= i < rest.len() implies #[trigger] rest[i] != "--music-dir"@ by {
            assert(rest[i] == args[i + 2]);
        }
        lemma_no_directory(rest, server_flag(so_far, args[0], args[1])->Some_0);
    }
}

/// A flag of the server that it does not know is refused by its name, and one that it knows without a
/// value too.
pub proof fn law_server_refuses_other_flags(
    args: Seq<Seq<char>>,
    before: ServerArgsModel,
    flag: Seq<char>,
    rest: Seq<Seq<char>>,
)
    requires
        args.len() % 2 == 0,
        server_args(args, no_server_args()) == Ok::<ServerArgsModel, ErrorModel>(before),
    ensures
        flag != "--music-dir"@ && flag != "--lastfm-api-key"@ && flag != "--secret"@
            && flag != "--relay"@ && flag != "--peer"@ ==> server_config(args + (seq![flag] + rest))
            == Err::<ServerArgsModel, ErrorModel>(
            ErrorModel::InvalidRequest("unknown argument: "@ + flag),
        ),
        flag == "--lastfm-api-key"@ || flag == "--secret"@ || flag == "--relay"@
            || flag == "--peer"@ ==> server_config(args + seq![flag])
            == Err::<ServerArgsModel, ErrorModel>(
            ErrorModel::InvalidRequest("missing value for flag"@),
        ),
{
    reveal_strlit("--music-dir");
    reveal_strlit("--lastfm-api-key");
    reveal_strlit("--secret");
    reveal_strlit("--relay");
    reveal_strlit("--peer");
    assert("--music-dir"@.len() == 11);
    assert("--lastfm-api-key"@.len() == 16);
    assert("--secret"@.len() == 8);
    assert("--relay"@.len() == 7);
    assert("--peer"@.len() == 6);
    lemma_server_args(args, seq![flag] + rest, no_server_args());
    lemma_server_args(args, seq![flag], no_server_args());
}

/// Each flag of the Subsonic frontend with a value behind it sets what it names, and nothing else; the
/// last value counts.
pub proof fn law_subsonic_flags_set_what_they_name(
    args: Seq<Seq<char>>,
    before: SubsonicConfigModel,
    value: Seq<char>,
)
    requires
        args.len() % 2 == 0,
        subsonic_args(args, subsonic_default()) == Ok::<SubsonicConfigModel, ErrorModel>(before),
        trimmed(before.endpoint).len() > 0,
        before.ticket matches Some(ticket) && trimmed(ticket).len() > 0,
    ensures
        subsonic_config(args + seq!["--bind"@, value]) matches Ok(after) && after.bind == value
            && after.endpoint == before.endpoint && after.ticket == before.ticket
            && after.relay == before.relay && after.secret == before.secret
            && after.username == before.username && after.password == before.password,
        subsonic_config(args + seq!["--endpoint"@, value]) matches Ok(after)
            && after.endpoint == value && after.bind == before.bind && after.ticket == before.ticket
            && after.relay == before.relay && after.secret == before.secret
            && after.username == before.username && after.password == before.password,
        subsonic_config(args + seq!["--ticket"@, value]) matches Ok(after)
            && after.ticket == Some(value) && after.bind == before.bind
            && after.endpoint == before.endpoint && after.relay == before.relay
            && after.secret == before.secret && after.username == before.username
            && after.password == before.password,
        subsonic_config(args + seq!["--relay"@, value]) matches Ok(after)
            && after.relay == Some(value) && after.bind == before.bind
            && after.endpoint == before.endpoint && after.ticket == before.ticket
            && after.secret == before.secret && after.username == before.username
            && after.password == before.password,
        subsonic_config(args + seq!["--secret"@, value]) matches Ok(after)
            && after.secret == Some(value) && after.bind == before.bind
            && after.endpoint == before.endpoint && after.ticket == before.ticket
            && after.relay == before.relay && after.username == before.username
            && after.password == before.password,
        subsonic_config(args + seq!["--username"@, value]) matches Ok(after)
            && after.username == value && after.bind == before.bind
            && after.endpoint == before.endpoint && after.ticket == before.ticket
            && after.relay == before.relay && after.secret == before.secret
            && after.password == before.password,
        subsonic_config(args + seq!["--password"@, value]) matches Ok(after)
            && after.password == value && after.bind == before.bind
            && after.endpoint == before.endpoint && after.ticket == before.ticket
            && after.relay == before.relay && after.secret == before.secret
            && after.username == before.username,
{
    reveal_strlit("--bind");
    reveal_strlit("--endpoint");
    reveal_strlit("--ticket");
    reveal_strlit("--relay");
    reveal_strlit("--secret");
    reveal_strlit("--username");
    reveal_strlit("--password");
    assert("--bind"@.len() == 6);
    assert("--endpoint"@.len() == 10 && "--endpoint"@[2] == 'e');
    assert("--ticket"@.len() == 8 && "--ticket"@[2] == 't');
    assert("--relay"@.len() == 7);
    assert("--secret"@.len() == 8 && "--secret"@[2] == 's');
    assert("--username"@.len() == 10 && "--username"@[2] == 'u');
    assert("--password"@.len() == 10 && "--password"@[2] == 'p');
    reveal_with_fuel(subsonic_args, 2);
    lemma_subsonic_args(args, seq!["--bind"@, value], subsonic_default());
    assert(seq!["--bind"@, value].skip(2) =~= Seq::<Seq<char>>::empty());
    lemma_subsonic_args(args, seq!["--endpoint"@, value], subsonic_default());
    assert(seq!["--endpoint"@, value].skip(2) =~= Seq::<Seq<char>>::empty());
    lemma_subsonic_args(args, seq!["--ticket"@, value], subsonic_default());
    assert(seq!["--ticket"@, value].skip(2) =~= Seq::<Seq<char>>::empty());
    lemma_subsonic_args(args, seq!["--relay"@, value], subsonic_default());
    assert(seq!["--relay"@, value].skip(2) =~= Seq::<Seq<char>>::empty());
    lemma_subsonic_args(args, seq!["--secret"@, value], subsonic_default());
    assert(seq!["--secret"@, value].skip(2) =~= Seq::<Seq<char>>::empty());
    lemma_subsonic_args(args, seq!["--username"@, value], subsonic_default());
    assert(seq!["--username"@, value].skip(2) =~= Seq::<Seq<char>>::empty());
    lemma_subsonic_args(args, seq!["--password"@, value], subsonic_default());
    assert(seq!["--password"@, value].skip(2) =~= Seq::<Seq<char>>::empty());
}

/// The backend has to be named, by its endpoint or by a ticket, and nothing else has to; what is not said
/// is as it is by default.
pub proof fn law_subsonic_needs_its_backend(value: Seq<char>)
    ensures
        subsonic_config(Seq::empty()) == Err::<SubsonicConfigModel, ErrorModel>(
            ErrorModel::InvalidRequest("expected --endpoint or --ticket"@),
        ),
        trimmed(value).len() > 0 ==> (subsonic_config(seq!["--endpoint"@, value]) matches Ok(said)
            && said.endpoint == value && said.ticket is None && said.bind == "127.0.0.1:4040"@
            && said.username == "admin"@ && said.password == "admin"@ && said.relay is None
            && said.secret is None),
        trimmed(value).len() > 0 ==> (subsonic_config(seq!["--ticket"@, value]) matches Ok(said)
            && said.ticket == Some(value) && said.endpoint.len() == 0 && said.bind
            == "127.0.0.1:4040"@ && said.username == "admin"@ && said.password == "admin"@
            && said.relay is None && said.secret is None),
        trimmed(value).len() == 0 ==> subsonic_config(seq!["--endpoint"@, value]) == Err::<
            SubsonicConfigModel,
            ErrorModel,
        >(ErrorModel::InvalidRequest("expected --endpoint or --ticket"@)),
        trimmed(value).len() == 0 ==> subsonic_config(seq!["--ticket"@, value]) == Err::<
            SubsonicConfigModel,
            ErrorModel,
        >(ErrorModel::InvalidRequest("expected --endpoint or --ticket"@)),
{
    reveal_strlit("--bind");
    reveal_strlit("--endpoint");
    reveal_strlit("--ticket");
    reveal_strlit("--relay");
    reveal_strlit("--secret");
    reveal_strlit("--username");
    reveal_strlit("--password");
    assert("--bind"@.len() == 6);
    assert("--endpoint"@.len() == 10 && "--endpoint"@[2] == 'e');
    assert("--ticket"@.len() == 8 && "--ticket"@[2] == 't');
    assert("--relay"@.len() == 7);
    assert("--secret"@.len() == 8 && "--secret"@[2] == 's');
    assert("--username"@.len() == 10 && "--username"@[2] == 'u');
    assert("--password"@.len() == 10 && "--password"@[2] == 'p');
    reveal_with_fuel(subsonic_args, 2);
    assert(seq!["--endpoint"@, value].skip(2) =~= Seq::<Seq<char>>::empty());
    assert(seq!["--ticket"@, value].skip(2) =~= Seq::<Seq<char>>::empty());
    law_trimming(Seq::empty(), Seq::empty(), Seq::empty());
    assert(
        Seq::<char>::empty() + Seq::<char>::empty() + Seq::<char>::empty() =~= Seq::<char>::empty()
    );
}

/// A flag that the Subsonic frontend does not know is refused by its name, and one that it knows without a
/// value too.
pub proof fn law_subsonic_refuses_other_flags(
    args: Seq<Seq<char>>,
    before: SubsonicConfigModel,
    flag: Seq<char>,
    rest: Seq<Seq<char>>,
)
    requires
        args.len() % 2 == 0,
        subsonic_args(args, subsonic_default()) == Ok::<SubsonicConfigModel, ErrorModel>(before),
    ensures
        flag != "--bind"@ && flag != "--endpoint"@ && flag != "--ticket"@ && flag != "--relay"@
            && flag != "--secret"@ && flag != "--username"@ && flag != "--password"@
            ==> subsonic_config(args + (seq![flag] + rest))
            == Err::<SubsonicConfigModel, ErrorModel>(
            ErrorModel::InvalidRequest("unknown argument: "@ + flag),
        ),
        flag == "--bind"@ || flag == "--endpoint"@ || flag == "--ticket"@ || flag == "--relay"@
            || flag == "--secret"@ || flag == "--username"@ || flag == "--password"@
            ==> subsonic_config(args + seq![flag])
            == Err::<SubsonicConfigModel, ErrorModel>(
            ErrorModel::InvalidRequest("missing value for flag"@),
        ),
{
    reveal_strlit("--bind");
    reveal_strlit("--endpoint");
    reveal_strlit("--ticket");
    reveal_strlit("--relay");
    reveal_strlit("--secret");
    reveal_strlit("--username");
    reveal_strlit("--password");
    assert("--bind"@.len() == 6);
    assert("--endpoint"@.len() == 10 && "--endpoint"@[2] == 'e');
    assert("--ticket"@.len() == 8 && "--ticket"@[2] == 't');
    assert("--relay"@.len() == 7);
    assert("--secret"@.len() == 8 && "--secret"@[2] == 's');
    assert("--username"@.len() == 10 && "--username"@[2] == 'u');
    assert("--password"@.len() == 10 && "--password"@[2] == 'p');
    lemma_subsonic_args(args, seq![flag] + rest, subsonic_default());
    lemma_subsonic_args(args, seq![flag], subsonic_default());
}

} // verus!
