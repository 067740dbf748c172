//! How `mamba-server` is told what to serve.

use crate::paths::{join, joined};
use crate::text::{
    characters, copy_text, decimal, decimal_form, glue2, glue4, maybe, same_text, texts,
};
use vstd::prelude::*;

verus! {

/// What a server serves, where it listens, and how it presents itself.
#[derive(Debug, PartialEq, Eq)]
pub struct ServerConfig {
    pub root: String,
    pub port: u16,
    pub advertise_host: String,
    pub advertise_user: String,
}

/// A [`ServerConfig`] as contracts see it.
#[verifier::ext_equal]
pub struct ServerView {
    pub root: Seq<char>,
    pub port: u16,
    pub host: Seq<char>,
    pub user: Seq<char>,
}

impl View for ServerConfig {
    type V = ServerView;

    open spec fn view(&self) -> ServerView {
        ServerView {
            root: self.root@,
            port: self.port,
            host: self.advertise_host@,
            user: self.advertise_user@,
        }
    }
}

/// What is served where nothing was said: `home` is the home directory and `user` the user's
/// name, where they are known.
pub open spec fn defaults(home: Option<Seq<char>>, user: Option<Seq<char>>) -> ServerView {
    ServerView {
        root: joined(
            match home {
                Some(dir) => dir,
                None => "."@,
            },
            ".mamba/projects"@,
        ),
        port: 7777,
        host: "localhost"@,
        user: match user {
            Some(name) => name,
            None => "root"@,
        },
    }
}

/// A decimal digit.
pub open spec fn is_digit(c: char) -> bool {
    '0' <= c <= '9'
}

/// Why a text is no port.
pub enum PortTrouble {
    Empty,
    InvalidDigit,
    TooLarge,
}

/// The port that digits, read on from a number, make. The first character that is wrong is the
/// one complained about.
pub open spec fn digits_port(so_far: nat, digits: Seq<char>) -> Result<u16, PortTrouble>
    decreases digits.len(),
{
    if digits.len() == 0 {
        Ok(so_far as u16)
    } else if !is_digit(digits[0]) {
        Err(PortTrouble::InvalidDigit)
    } else {
        let now = so_far * 10 + (digits[0] as nat - 48) as nat;
        if now > 65535 {
            Err(PortTrouble::TooLarge)
        } else {
            digits_port(now, digits.drop_first())
        }
    }
}

/// The port that a text names: digits, with a plus sign in front or not.
pub open spec fn port_named(text: Seq<char>) -> Result<u16, PortTrouble> {
    if text.len() == 0 {
        Err(PortTrouble::Empty)
    } else if text[0] == '+' {
        if text.len() == 1 {
            Err(PortTrouble::InvalidDigit)
        } else {
            digits_port(0, text.drop_first())
        }
    } else {
        digits_port(0, text)
    }
}

/// What is told of a text that is no port.
pub open spec fn port_trouble_text(trouble: PortTrouble) -> Seq<char> {
    match trouble {
        PortTrouble::Empty => "cannot parse integer from empty string"@,
        PortTrouble::InvalidDigit => "invalid digit found in string"@,
        PortTrouble::TooLarge => "number too large to fit in target type"@,
    }
}

/// Reads a port.
pub fn parse_port(text: &str) -> (r: Result<u16, String>)
    ensures
        match port_named(text@) {
            Ok(port) => r == Ok::<u16, String>(port),
            Err(trouble) => r matches Err(e) && e@ == port_trouble_text(trouble),
        },
{
    let chars = characters(text);
    if chars.len() == 0 {
        return Err(copy_text("cannot parse integer from empty string"));
    }
    let mut i: usize = 0;
    if chars[0] == '+' {
        if chars.len() == 1 {
            return Err(copy_text("invalid digit found in string"));
        }
        i = 1;
    }
    let mut port: u32 = 0;
    assert(chars@.skip(0) =~= text@);
    assert(chars@.skip(1) =~= text@.drop_first());
    while i < chars.len()
        invariant
            i <= chars@.len(),
            port <= 65535,
            port_named(text@) == digits_port(port as nat, chars@.skip(i as int)),
        decreases chars@.len() - i,
    {
        let c = chars[i];
        assert(chars@.skip(i as int)[0] == c);
        assert(chars@.skip(i as int).drop_first() =~= chars@.skip(i + 1));
        if c < '0' || c > '9' {
            return Err(copy_text("invalid digit found in string"));
        }
        port = port * 10 + (c as u32 - 48);
        if port > 65535 {
            return Err(copy_text("number too large to fit in target type"));
        }
        i += 1;
    }
    Ok(port as u16)
}

/// What a command line, read on from where it was understood so far, asks for: flags that each
/// take the argument behind them, the later one counting where one comes twice.
pub open spec fn configured(so_far: ServerView, args: Seq<Seq<char>>) -> Result<
    ServerView,
    Seq<char>,
>
    decreases args.len(),
{
    if args.len() == 0 {
        Ok(so_far)
    } else if args[0] == "--root"@ {
        if args.len() < 2 {
            Err("--root needs a path"@)
        } else {
            configured(ServerView { root: args[1], ..so_far }, args.skip(2))
        }
    } else if args[0] == "--port"@ {
        if args.len() < 2 {
            Err("--port needs a number"@)
        } else {
            match port_named(args[1]) {
                Err(trouble) => Err(port_trouble_text(trouble)),
                Ok(port) => configured(ServerView { port, ..so_far }, args.skip(2)),
            }
        }
    } else if args[0] == "--advertise-host"@ {
        if args.len() < 2 {
            Err("--advertise-host needs a name"@)
        } else {
            configured(ServerView { host: args[1], ..so_far }, args.skip(2))
        }
    } else if args[0] == "--advertise-user"@ {
        if args.len() < 2 {
            Err("--advertise-user needs a name"@)
        } else {
            configured(ServerView { user: args[1], ..so_far }, args.skip(2))
        }
    } else {
        Err("unknown flag "@ + args[0])
    }
}

/// What a command line asks for, as contracts see it.
pub open spec fn config_view(r: Result<ServerConfig, String>) -> Result<ServerView, Seq<char>> {
    match r {
        Ok(config) => Ok(config@),
        Err(why) => Err(why@),
    }
}

/// Reads a server's command line, `args` being that line with the program name already removed.
pub fn configure(home: Option<&str>, user: Option<&str>, args: &[String]) -> (r: Result<
    ServerConfig,
    String,
>)
    ensures
        config_view(r) == configured(
            defaults(maybe(home), maybe(user)),
            texts(args@),
        ),
{
    let mut config = ServerConfig {
        root: match home {
            Some(dir) => join(dir, ".mamba/projects"),
            None => join(".", ".mamba/projects"),
        },
        port: 7777,
        advertise_host: copy_text("localhost"),
        advertise_user: match user {
            Some(name) => copy_text(name),
            None => copy_text("root"),
        },
    };
    let ghost start = defaults(maybe(home), maybe(user));
    assert(config@ == start);
    let ghost all = texts(args@);
    let mut i: usize = 0;
    assert(all.skip(0) =~= all);
    while i < args.len()
        invariant
            i <= args@.len(),
            all == texts(args@),
            start == defaults(maybe(home), maybe(user)),
            configured(start, all) == configured(config@, all.skip(i as int)),
        decreases args@.len() - i,
    {
        let flag = args[i].as_str();
        let ghost left = all.skip(i as int);
        assert(left[0] == flag@);
        if same_text(flag, "--root") {
            if args.len() - i < 2 {
                return Err(copy_text("--root needs a path"));
            }
            config.root = args[i + 1].clone();
        } else if same_text(flag, "--port") {
            if args.len() - i < 2 {
                return Err(copy_text("--port needs a number"));
            }
            match parse_port(args[i + 1].as_str()) {
                Err(why) => {
                    return Err(why);
                },
                Ok(port) => {
                    config.port = port;
                },
            }
        } else if same_text(flag, "--advertise-host") {
            if args.len() - i < 2 {
                return Err(copy_text("--advertise-host needs a name"));
            }
            config.advertise_host = args[i + 1].clone();
        } else if same_text(flag, "--advertise-user") {
            if args.len() - i < 2 {
                return Err(copy_text("--advertise-user needs a name"));
            }
            config.advertise_user = args[i + 1].clone();
        } else {
            return Err(glue2("unknown flag ", flag));
        }
        assert(left.skip(2) =~= all.skip(i + 2));
        assert(left[1] == args@[i + 1]@);
        i += 2;
    }
    assert(all.skip(i as int) =~= Seq::<Seq<char>>::empty());
    Ok(config)
}

/// The address a server listens on.
pub open spec fn listening(port: u16) -> Seq<char> {
    "0.0.0.0:"@ + decimal_form(port as nat)
}

impl ServerConfig {
    /// The address to listen on.
    pub fn address(&self) -> (r: String)
        ensures
            r@ == listening(self@.port),
    {
        glue2("0.0.0.0:", decimal(self.port as u64).as_str())
    }

    /// What is told when serving starts.
    pub fn greeting(&self) -> (r: String)
        ensures
            r@ == "mamba-server: serving "@ + self@.root + " on "@ + listening(self@.port),
    {
        glue4(
            "mamba-server: serving ",
            self.root.as_str(),
            " on ",
            self.address().as_str(),
        )
    }
}

proof fn lemma_one_more_digit(so_far: nat, digits: Seq<char>, c: char)
    requires
        is_digit(c),
        so_far <= 65535,
    ensures
        match digits_port(so_far, digits) {
            Err(_) => true,
            Ok(port) => digits_port(so_far, digits.push(c)) == if port * 10 + (c as nat - 48) > 65535 {
                Err::<u16, PortTrouble>(PortTrouble::TooLarge)
            } else {
                Ok::<u16, PortTrouble>((port * 10 + (c as nat - 48)) as u16)
            },
        },
    decreases digits.len(),
{
    let all = digits.push(c);
    reveal_with_fuel(digits_port, 2);
    if digits.len() == 0 {
        assert(all[0] == c);
        assert(all.drop_first() =~= Seq::<char>::empty());
    } else {
        assert(all[0] == digits[0]);
        assert(all.drop_first() =~= digits.drop_first().push(c));
        if is_digit(digits[0]) {
            let now = so_far * 10 + (digits[0] as nat - 48) as nat;
            if now <= 65535 {
                lemma_one_more_digit(now, digits.drop_first(), c);
            }
        }
    }
}

proof fn lemma_decimal_is_read_back(n: nat)
    requires
        n <= 65535,
    ensures
        digits_port(0, decimal_form(n)) == Ok::<u16, PortTrouble>(n as u16),
        decimal_form(n).len() > 0,
        is_digit(decimal_form(n)[0]),
    decreases n,
{
    if n < 10 {
        reveal_with_fuel(digits_port, 2);
        let all = decimal_form(n);
        assert(all.drop_first() =~= Seq::<char>::empty());
    } else {
        lemma_decimal_is_read_back(n / 10);
        lemma_one_more_digit(0, decimal_form(n / 10), crate::text::digit_char(n % 10));
        assert(decimal_form(n)[0] == decimal_form(n / 10)[0]);
    }
}

/// A port written in decimal is read back.
pub proof fn law_port_is_read_back(port: u16)
    ensures
        port_named(decimal_form(port as nat)) == Ok::<u16, PortTrouble>(port),
{
    lemma_decimal_is_read_back(port as nat);
}

/// What is served where nothing was said. The port is the one that clients ask at.
pub proof fn law_defaults(dir: Seq<char>, name: Seq<char>)
    ensures
        defaults(Some(dir), Some(name)).root == joined(dir, ".mamba/projects"@),
        defaults(None, Some(name)).root == joined("."@, ".mamba/projects"@),
        defaults(Some(dir), Some(name)).user == name,
        defaults(Some(dir), None).user == "root"@,
        forall|home: Option<Seq<char>>, user: Option<Seq<char>>|
            {
                let made = #[trigger] defaults(home, user);
                made.port == crate::grpc::GRPC_PORT && made.port == 7777 && made.host
                    == "localhost"@
            },
        forall|user: Option<Seq<char>>|
            (#[trigger] defaults(Some(dir), user)).root == joined(dir, ".mamba/projects"@),
        forall|home: Option<Seq<char>>| (#[trigger] defaults(home, Some(name))).user == name,
{
}

/// A command line is read from left to right, two arguments at a time: a flag and what it is set
/// to, which changes that one thing and nothing else, so that a later one wins over an earlier
/// one. What is no flag is named, and so is a flag with nothing behind it.
pub proof fn law_flags_set_one_thing_each(
    so_far: ServerView,
    said: Seq<char>,
    rest: Seq<Seq<char>>,
)
    ensures
        configured(so_far, Seq::empty()) == Ok::<ServerView, Seq<char>>(so_far),
        configured(so_far, seq!["--root"@, said] + rest) == configured(
            ServerView { root: said, port: so_far.port, host: so_far.host, user: so_far.user },
            rest,
        ),
        configured(so_far, seq!["--advertise-host"@, said] + rest) == configured(
            ServerView { root: so_far.root, port: so_far.port, host: said, user: so_far.user },
            rest,
        ),
        configured(so_far, seq!["--advertise-user"@, said] + rest) == configured(
            ServerView { root: so_far.root, port: so_far.port, host: so_far.host, user: said },
            rest,
        ),
        port_named(said) matches Ok(port) ==> configured(so_far, seq!["--port"@, said] + rest)
            == configured(
            ServerView { root: so_far.root, port, host: so_far.host, user: so_far.user },
            rest,
        ),
        port_named(said) matches Err(trouble) ==> configured(so_far, seq!["--port"@, said] + rest)
            == Err::<ServerView, Seq<char>>(port_trouble_text(trouble)),
        configured(so_far, seq!["--root"@]) == Err::<ServerView, Seq<char>>(
            "--root needs a path"@,
        ),
        configured(so_far, seq!["--port"@]) == Err::<ServerView, Seq<char>>(
            "--port needs a number"@,
        ),
        configured(so_far, seq!["--advertise-host"@]) == Err::<ServerView, Seq<char>>(
            "--advertise-host needs a name"@,
        ),
        configured(so_far, seq!["--advertise-user"@]) == Err::<ServerView, Seq<char>>(
            "--advertise-user needs a name"@,
        ),
        said != "--root"@ && said != "--port"@ && said != "--advertise-host"@ && said
            != "--advertise-user"@ ==> configured(so_far, seq![said] + rest) == Err::<
            ServerView,
            Seq<char>,
        >("unknown flag "@ + said),
{
    reveal_strlit("--root");
    reveal_strlit("--port");
    reveal_strlit("--advertise-host");
    reveal_strlit("--advertise-user");
    assert("--root"@[2] == 'r' && "--port"@[2] == 'p' && "--advertise-host"@[2] == 'a'
        && "--advertise-user"@[2] == 'a');
    assert("--advertise-host"@[12] == 'h' && "--advertise-user"@[12] == 'u');
    assert((seq!["--root"@, said] + rest).skip(2) =~= rest);
    assert((seq!["--port"@, said] + rest).skip(2) =~= rest);
    assert((seq!["--advertise-host"@, said] + rest).skip(2) =~= rest);
    assert((seq!["--advertise-user"@, said] + rest).skip(2) =~= rest);
    assert((seq!["--root"@, said] + rest)[1] == said);
    assert((seq!["--port"@, said] + rest)[1] == said);
    assert((seq!["--advertise-host"@, said] + rest)[1] == said);
    assert((seq!["--advertise-user"@, said] + rest)[1] == said);
    assert((seq![said] + rest)[0] == said);
}

proof fn lemma_more_after_trouble(so_far: nat, digits: Seq<char>, c: char)
    requires
        so_far <= 65535,
    ensures
        digits_port(so_far, digits) is Err ==> digits_port(so_far, digits.push(c)) == digits_port(
            so_far,
            digits,
        ),
        digits_port(so_far, digits) is Ok && !is_digit(c) ==> digits_port(so_far, digits.push(c))
            == Err::<u16, PortTrouble>(PortTrouble::InvalidDigit),
    decreases digits.len(),
{
    let all = digits.push(c);
    reveal_with_fuel(digits_port, 2);
    if digits.len() == 0 {
        assert(all[0] == c);
    } else {
        assert(all[0] == digits[0]);
        assert(all.drop_first() =~= digits.drop_first().push(c));
        if is_digit(digits[0]) {
            let now = so_far * 10 + (digits[0] as nat - 48) as nat;
            if now <= 65535 {
                lemma_more_after_trouble(now, digits.drop_first(), c);
            }
        }
    }
}

/// A port is read digit by digit, each one being worth ten times less than the one before it. What
/// is no digit, or makes the number larger than a port can be, is told at once, and nothing that
/// follows mends it. A plus sign may stand in front of the first digit, but not alone.
pub proof fn law_ports_are_read_digit_by_digit(text: Seq<char>, c: char)
    ensures
        port_named(Seq::empty()) == Err::<u16, PortTrouble>(PortTrouble::Empty),
        '0' <= c <= '9' ==> port_named(seq![c]) == Ok::<u16, PortTrouble>((c as u32 - 48) as u16),
        !('0' <= c <= '9') ==> port_named(seq![c]) == Err::<u16, PortTrouble>(
            PortTrouble::InvalidDigit,
        ),
        port_named(text) matches Ok(port) ==> '0' <= c <= '9' ==> port_named(text.push(c)) == (
        if port * 10 + (c as u32 - 48) > 65535 {
            Err::<u16, PortTrouble>(PortTrouble::TooLarge)
        } else {
            Ok::<u16, PortTrouble>((port * 10 + (c as u32 - 48)) as u16)
        }),
        port_named(text) is Ok && !('0' <= c <= '9') ==> port_named(text.push(c)) == Err::<
            u16,
            PortTrouble,
        >(PortTrouble::InvalidDigit),
        text.len() > 0 && text != seq!['+'] && port_named(text) is Err ==> port_named(text.push(c))
            == port_named(text),
        text.len() > 0 && text[0] != '+' ==> port_named(seq!['+'] + text) == port_named(text),
        text.len() > 0 && text[0] == '+' ==> port_named(seq!['+'] + text) == Err::<
            u16,
            PortTrouble,
        >(PortTrouble::InvalidDigit),
{
    reveal_with_fuel(digits_port, 2);
    let one = seq![c];
    assert(one.drop_first() =~= Seq::<char>::empty());
    let all = text.push(c);
    let plus = seq!['+'] + text;
    assert(plus[0] == '+');
    assert(plus.drop_first() =~= text);
    if text.len() > 0 {
        assert(all[0] == text[0]);
        if text[0] == '+' {
            assert(all.drop_first() =~= text.drop_first().push(c));
            if text.len() == 1 {
                assert(text =~= seq!['+']);
            }
            if '0' <= c <= '9' {
                lemma_one_more_digit(0, text.drop_first(), c);
            }
            lemma_more_after_trouble(0, text.drop_first(), c);
        } else {
            if '0' <= c <= '9' {
                lemma_one_more_digit(0, text, c);
            }
            lemma_more_after_trouble(0, text, c);
        }
    }
}

/// A server listens on every address, at its port; and what is told of a text that is no port.
pub proof fn law_where_a_server_listens(port: u16)
    ensures
        listening(port) == "0.0.0.0:"@ + decimal_form(port as nat),
        port_trouble_text(PortTrouble::Empty) == "cannot parse integer from empty string"@,
        port_trouble_text(PortTrouble::InvalidDigit) == "invalid digit found in string"@,
        port_trouble_text(PortTrouble::TooLarge) == "number too large to fit in target type"@,
{
}

/// What a command line came to is seen as it is.
pub proof fn law_settings_are_seen_as_they_are(r: Result<ServerConfig, String>)
    ensures
        r matches Ok(config) ==> (config_view(r) matches Ok(seen) && seen.root == config.root@
            && seen.port == config.port && seen.host == config.advertise_host@ && seen.user
            == config.advertise_user@),
        r matches Err(why) ==> config_view(r) == Err::<ServerView, Seq<char>>(why@),
{
}

} // verus!
