//! The line-oriented server configuration format: a fixed set of
//! recognized directives, rendered as `key "quoted value"` or
//! `key bareword` lines, with `//` comment lines and blank lines
//! ignored on parse.

use vstd::prelude::*;

use crate::errors::CoreError;
use crate::strutil::{
    find_char, is_blank, lemma_find_at, lemma_find_props, lemma_skip_blanks_at, lemma_split_cons,
    lemma_split_single, lemma_token_end_at, lemma_trim_end_at, lemma_trim_of_clean,
    lemma_trim_start_at, lemma_u32_digits_roundtrip, parse_u32, skip_blanks, spec_find,
    spec_parse_u32, spec_skip_blanks, spec_split_from, spec_starts_with, spec_token_end, spec_trim,
    spec_u32_digits, starts_with, str_eq, token_end, trim, u32_to_string,
};
use vstd::string::StrSliceExecFns;
use vstd::string::StringExecFns;

verus! {

/// Mathematical model of a configuration: each directive's value.
pub ghost struct ServerConfigV {
    pub hostname: Seq<char>,
    pub rcon_password: Seq<char>,
    pub sv_password: Seq<char>,
    pub maxplayers: u32,
    pub map: Seq<char>,
    pub game_mode: Seq<char>,
    pub game_type: Seq<char>,
}

/// The editable server configuration with its recognized directives.
#[derive(Debug, Clone, PartialEq, Eq)]
pub struct ServerConfig {
    pub hostname: String,
    pub rcon_password: String,
    pub sv_password: String,
    pub maxplayers: u32,
    pub map: String,
    pub game_mode: String,
    pub game_type: String,
}

impl View for ServerConfig {
    type V = ServerConfigV;

    open spec fn view(&self) -> ServerConfigV {
        ServerConfigV {
            hostname: self.hostname@,
            rcon_password: self.rcon_password@,
            sv_password: self.sv_password@,
            maxplayers: self.maxplayers,
            map: self.map@,
            game_mode: self.game_mode@,
            game_type: self.game_type@,
        }
    }
}

/// The values a configuration starts from.
pub open spec fn spec_default() -> ServerConfigV {
    ServerConfigV {
        hostname: "CS2 Server"@,
        rcon_password: "changeme"@,
        sv_password: ""@,
        maxplayers: 10,
        map: "de_dust2"@,
        game_mode: "0"@,
        game_type: "0"@,
    }
}

impl Default for ServerConfig {
    fn default() -> (r: Self)
        ensures
            r@ == spec_default(),
    {
        ServerConfig {
            hostname: String::from_str("CS2 Server"),
            rcon_password: String::from_str("changeme"),
            sv_password: String::from_str(""),
            maxplayers: 10,
            map: String::from_str("de_dust2"),
            game_mode: String::from_str("0"),
            game_type: String::from_str("0"),
        }
    }
}

/// Effect of setting one directive: the updated configuration, or
/// `UnknownKey` for an unrecognized key, or `InvalidValue` when the
/// value does not parse for the key.
pub open spec fn spec_set(c: ServerConfigV, k: Seq<char>, v: Seq<char>) -> Result<
    ServerConfigV,
    CoreError,
> {
    if k == "hostname"@ {
        Ok(ServerConfigV { hostname: v, ..c })
    } else if k == "rcon_password"@ {
        Ok(ServerConfigV { rcon_password: v, ..c })
    } else if k == "sv_password"@ {
        Ok(ServerConfigV { sv_password: v, ..c })
    } else if k == "maxplayers"@ {
        match spec_parse_u32(v) {
            Some(n) => Ok(ServerConfigV { maxplayers: n, ..c }),
            None => Err(CoreError::InvalidValue),
        }
    } else if k == "map"@ {
        Ok(ServerConfigV { map: v, ..c })
    } else if k == "game_mode"@ {
        Ok(ServerConfigV { game_mode: v, ..c })
    } else if k == "game_type"@ {
        Ok(ServerConfigV { game_type: v, ..c })
    } else {
        Err(CoreError::UnknownKey)
    }
}

/// Rendered text of a configuration: a comment header, the three quoted
/// string directives, then the four bareword directives.
pub open spec fn spec_cfg_string(c: ServerConfigV) -> Seq<char> {
    "// CS2 Server Configuration\nhostname \""@ + c.hostname + "\"\nrcon_password \""@
        + c.rcon_password + "\"\nsv_password \""@ + c.sv_password + "\"\nmaxplayers "@
        + spec_u32_digits(c.maxplayers as nat) + "\nmap "@ + c.map + "\ngame_mode "@ + c.game_mode
        + "\ngame_type "@ + c.game_type + "\n"@
}

/// What one directive line parses to: with a quote present, the key is
/// the trimmed text before the first quote and the value the text
/// between the first two quotes; otherwise the first two blank-separated
/// tokens. `None` if the line has neither shape.
pub open spec fn spec_parse_line(line: Seq<char>) -> Option<(Seq<char>, Seq<char>)> {
    let t = spec_trim(line);
    match spec_find(t, '"', 0) {
        Some(q1) => match spec_find(t, '"', q1 + 1) {
            Some(q2) => Some((spec_trim(t.subrange(0, q1)), t.subrange(q1 + 1, q2))),
            None => None,
        },
        None => {
            let k0 = spec_skip_blanks(t, 0);
            if k0 >= t.len() {
                None
            } else {
                let k1 = spec_token_end(t, k0);
                let v0 = spec_skip_blanks(t, k1);
                if v0 >= t.len() {
                    None
                } else {
                    Some((t.subrange(k0, k1), t.subrange(v0, spec_token_end(t, v0))))
                }
            }
        },
    }
}

/// Effect of one content line on a configuration: blank lines, comment
/// lines, and lines that parse to no directive leave it unchanged.
pub open spec fn spec_line_step(c: ServerConfigV, line: Seq<char>) -> Result<
    ServerConfigV,
    CoreError,
> {
    let t = spec_trim(line);
    if t.len() == 0 || spec_starts_with(t, "//"@) {
        Ok(c)
    } else {
        match spec_parse_line(line) {
            Some(kv) => spec_set(c, kv.0, kv.1),
            None => Ok(c),
        }
    }
}

/// Left fold of [`spec_line_step`] over a sequence of lines, stopping
/// at the first failing directive.
pub open spec fn spec_apply_lines(c: ServerConfigV, lines: Seq<Seq<char>>) -> Result<
    ServerConfigV,
    CoreError,
>
    decreases lines.len(),
{
    if lines.len() == 0 {
        Ok(c)
    } else {
        match spec_line_step(c, lines[0]) {
            Ok(c2) => spec_apply_lines(c2, lines.drop_first()),
            Err(e) => Err(e),
        }
    }
}

/// What a whole configuration text parses to, starting from the
/// default values.
pub open spec fn spec_parse_cfg(content: Seq<char>) -> Result<ServerConfigV, CoreError> {
    spec_apply_lines(spec_default(), spec_split_from(content, '\n', 0))
}

impl ServerConfig {
    /// Set one directive by key, parsing the value where the key calls
    /// for a number. On failure the configuration is unchanged.
    pub fn set(&mut self, key: &str, value: &str) -> (r: Result<(), CoreError>)
        ensures
            match r {
                Ok(_) => spec_set(old(self)@, key@, value@) == Ok::<ServerConfigV, CoreError>(
                    final(self)@,
                ),
                Err(e) => spec_set(old(self)@, key@, value@) == Err::<ServerConfigV, CoreError>(e)
                    && final(self)@ == old(self)@,
            },
    {
        if str_eq(key, "hostname") {
            self.hostname = String::from_str(value);
            Ok(())
        } else if str_eq(key, "rcon_password") {
            self.rcon_password = String::from_str(value);
            Ok(())
        } else if str_eq(key, "sv_password") {
            self.sv_password = String::from_str(value);
            Ok(())
        } else if str_eq(key, "maxplayers") {
            match parse_u32(value) {
                Some(n) => {
                    self.maxplayers = n;
                    Ok(())
                },
                None => Err(CoreError::InvalidValue),
            }
        } else if str_eq(key, "map") {
            self.map = String::from_str(value);
            Ok(())
        } else if str_eq(key, "game_mode") {
            self.game_mode = String::from_str(value);
            Ok(())
        } else if str_eq(key, "game_type") {
            self.game_type = String::from_str(value);
            Ok(())
        } else {
            Err(CoreError::UnknownKey)
        }
    }

    /// Render the configuration in its on-disk text form.
    pub fn to_cfg_string(&self) -> (r: String)
        ensures
            r@ == spec_cfg_string(self@),
    {
        let players = u32_to_string(self.maxplayers);
        let r = String::from_str("// CS2 Server Configuration\nhostname \"").concat(
            self.hostname.as_str(),
        ).concat("\"\nrcon_password \"").concat(self.rcon_password.as_str()).concat(
            "\"\nsv_password \"",
        ).concat(self.sv_password.as_str()).concat("\"\nmaxplayers ").concat(players.as_str())
            .concat("\nmap ").concat(self.map.as_str()).concat("\ngame_mode ").concat(
            self.game_mode.as_str(),
        ).concat("\ngame_type ").concat(self.game_type.as_str()).concat("\n");
        proof {
            assert(r@ =~= spec_cfg_string(self@));
        }
        r
    }

    /// Parse one line into a key and value, if it has the directive shape.
    pub fn parse_cfg_line(line: &str) -> (r: Option<(String, String)>)
        ensures
            match r {
                Some(kv) => spec_parse_line(line@) == Some((kv.0@, kv.1@)),
                None => spec_parse_line(line@) is None,
            },
    {
        let t = trim(line);
        let tlen = t.unicode_len();
        match find_char(t, '"', 0) {
            Some(q1) => {
                proof {
                    crate::strutil::lemma_find_props(t@, '"', 0);
                }
                match find_char(t, '"', q1 + 1) {
                    Some(q2) => {
                        proof {
                            crate::strutil::lemma_find_props(t@, '"', q1 as int + 1);
                        }
                        let keypart = t.substring_char(0, q1);
                        let key = trim(keypart);
                        let value = t.substring_char(q1 + 1, q2);
                        Some((String::from_str(key), String::from_str(value)))
                    },
                    None => None,
                }
            },
            None => {
                let k0 = skip_blanks(t, 0);
                if k0 == tlen {
                    return None;
                }
                let k1 = token_end(t, k0);
                let v0 = skip_blanks(t, k1);
                if v0 == tlen {
                    return None;
                }
                let v1 = token_end(t, v0);
                let key = t.substring_char(k0, k1);
                let value = t.substring_char(v0, v1);
                Some((String::from_str(key), String::from_str(value)))
            },
        }
    }

    /// Parse a whole configuration text, applying each directive line to
    /// the default configuration in order.
    pub fn parse_from_cfg(content: &str) -> (r: Result<ServerConfig, CoreError>)
        ensures
            match r {
                Ok(c) => spec_parse_cfg(content@) == Ok::<ServerConfigV, CoreError>(c@),
                Err(e) => spec_parse_cfg(content@) == Err::<ServerConfigV, CoreError>(e),
            },
    {
        let mut config = ServerConfig::default();
        let len = content.unicode_len();
        let mut pos: usize = 0;
        loop
            invariant
                len == content@.len(),
                pos <= len,
                spec_parse_cfg(content@) == spec_apply_lines(
                    config@,
                    spec_split_from(content@, '\n', pos as int),
                ),
            decreases len - pos,
        {
            let next = find_char(content, '\n', pos);
            let line_end = match next {
                Some(i) => {
                    proof {
                        crate::strutil::lemma_find_props(content@, '\n', pos as int);
                    }
                    i
                },
                None => len,
            };
            let line = content.substring_char(pos, line_end);
            let ghost rest: Seq<Seq<char>> = match next {
                Some(i) => spec_split_from(content@, '\n', i + 1),
                None => Seq::empty(),
            };
            proof {
                let lines = spec_split_from(content@, '\n', pos as int);
                match next {
                    Some(i) => {
                        assert(lines == seq![line@] + rest);
                        assert(lines[0] == line@);
                        assert(lines.drop_first() =~= rest);
                    },
                    None => {
                        assert(lines =~= seq![line@]);
                        assert(lines[0] == line@);
                        assert(lines.drop_first() =~= rest);
                    },
                }
            }
            let ghost c0 = config@;
            let ghost lines = spec_split_from(content@, '\n', pos as int);
            let t = trim(line);
            let skip = t.unicode_len() == 0 || starts_with(t, "//");
            if !skip {
                match Self::parse_cfg_line(line) {
                    Some(kv) => {
                        match config.set(kv.0.as_str(), kv.1.as_str()) {
                            Ok(_) => {},
                            Err(e) => {
                                proof {
                                    assert(spec_line_step(c0, line@) == Err::<
                                        ServerConfigV,
                                        CoreError,
                                    >(e));
                                    assert(spec_apply_lines(c0, lines) == Err::<
                                        ServerConfigV,
                                        CoreError,
                                    >(e));
                                }
                                return Err(e);
                            },
                        }
                    },
                    None => {},
                }
            }
            proof {
                assert(spec_line_step(c0, line@) == Ok::<ServerConfigV, CoreError>(config@));
                assert(spec_apply_lines(c0, lines) == spec_apply_lines(config@, rest));
            }
            match next {
                Some(i) => {
                    pos = i + 1;
                },
                None => {
                    proof {
                        assert(spec_apply_lines(config@, rest) == Ok::<ServerConfigV, CoreError>(
                            config@,
                        ));
                    }
                    return Ok(config);
                },
            }
        }
    }
}

/// A value that survives rendering as a quoted directive: nothing that
/// would end the quote or the line early.
pub open spec fn spec_quoted_value_ok(v: Seq<char>) -> bool {
    forall|i: int| 0 <= i < v.len() ==> v[i] != '"' && v[i] != '\n'
}

/// A value that survives rendering as a bareword directive: one
/// nonempty token with nothing quoted or blank in it.
pub open spec fn spec_bare_value_ok(v: Seq<char>) -> bool {
    v.len() > 0 && forall|i: int| 0 <= i < v.len() ==> v[i] != '"' && !is_blank(v[i])
}

/// A configuration whose rendered text parses back without loss.
pub open spec fn spec_round_trippable(c: ServerConfigV) -> bool {
    &&& spec_quoted_value_ok(c.hostname)
    &&& spec_quoted_value_ok(c.rcon_password)
    &&& spec_quoted_value_ok(c.sv_password)
    &&& spec_bare_value_ok(c.map)
    &&& spec_bare_value_ok(c.game_mode)
    &&& spec_bare_value_ok(c.game_type)
}

/// A directive key as rendered: one token, unquoted, not a comment
/// opener.
spec fn key_shape_ok(key: Seq<char>) -> bool {
    key.len() > 0 && key[0] != '/' && forall|i: int|
        0 <= i < key.len() ==> !is_blank(key[i]) && key[i] != '"'
}

/// What one rendered quoted directive line does to a configuration.
proof fn lemma_quoted_line_step(c: ServerConfigV, key: Seq<char>, v: Seq<char>)
    requires
        key_shape_ok(key),
        spec_quoted_value_ok(v),
    ensures
        spec_line_step(c, key + " \""@ + v + "\""@) == spec_set(c, key, v),
        forall|i: int|
            0 <= i < (key + " \""@ + v + "\""@).len() ==> (key + " \""@ + v + "\""@)[i] != '\n',
{
    reveal_strlit(" \"");
    reveal_strlit("\"");
    reveal_strlit("//");
    let line = key + " \""@ + v + "\""@;
    let kl = key.len() as int;
    let n = line.len() as int;
    assert(" \""@ =~= seq![' ', '"']);
    assert("\""@ =~= seq!['"']);
    assert(forall|i: int| 0 <= i < kl ==> line[i] == key[i]);
    assert(line[kl] == ' ');
    assert(line[kl + 1] == '"');
    assert(forall|i: int| kl + 2 <= i < n - 1 ==> line[i] == v[i - (kl + 2)]);
    assert(line[n - 1] == '"');
    assert(!is_blank('"'));
    lemma_trim_of_clean(line);
    assert(!spec_starts_with(line, "//"@)) by {
        if spec_starts_with(line, "//"@) {
            assert(line.subrange(0, 2)[0] == line[0]);
            assert(false);
        }
    }
    lemma_find_at(line, '"', 0, kl + 1);
    lemma_find_at(line, '"', kl + 2, n - 1);
    assert(line.subrange(kl + 2, n - 1) =~= v);
    let kp = line.subrange(0, kl + 1);
    assert(kp =~= key + seq![' ']);
    lemma_trim_start_at(kp, 0);
    assert(kp.subrange(0, kp.len() as int) =~= kp);
    lemma_trim_end_at(kp, kl);
    assert(kp.subrange(0, kl) =~= key);
    assert(spec_parse_line(line) == Some((key, v)));
}

/// What one rendered bareword directive line does to a configuration.
proof fn lemma_bare_line_step(c: ServerConfigV, key: Seq<char>, v: Seq<char>)
    requires
        key_shape_ok(key),
        spec_bare_value_ok(v),
    ensures
        spec_line_step(c, key + " "@ + v) == spec_set(c, key, v),
        forall|i: int| 0 <= i < (key + " "@ + v).len() ==> (key + " "@ + v)[i] != '\n',
{
    reveal_strlit(" ");
    reveal_strlit("//");
    let line = key + " "@ + v;
    let kl = key.len() as int;
    let n = line.len() as int;
    assert(" "@ =~= seq![' ']);
    assert(forall|i: int| 0 <= i < kl ==> line[i] == key[i]);
    assert(line[kl] == ' ');
    assert(forall|i: int| kl + 1 <= i < n ==> line[i] == v[i - (kl + 1)]);
    lemma_trim_of_clean(line);
    assert(!spec_starts_with(line, "//"@)) by {
        if spec_starts_with(line, "//"@) {
            assert(line.subrange(0, 2)[0] == line[0]);
            assert(false);
        }
    }
    lemma_find_props(line, '"', 0);
    if spec_find(line, '"', 0) is Some {
        assert(false);
    }
    lemma_skip_blanks_at(line, 0, 0);
    lemma_token_end_at(line, 0, kl);
    lemma_skip_blanks_at(line, kl, kl + 1);
    lemma_token_end_at(line, kl + 1, n);
    assert(line.subrange(0, kl) =~= key);
    assert(line.subrange(kl + 1, n) =~= v);
    assert(spec_parse_line(line) == Some((key, v)));
}

/// Folding one more line.
proof fn lemma_apply_cons(c: ServerConfigV, line: Seq<char>, rest: Seq<Seq<char>>)
    ensures
        spec_apply_lines(c, seq![line] + rest) == (match spec_line_step(c, line) {
            Ok(c2) => spec_apply_lines(c2, rest),
            Err(e) => Err(e),
        }),
{
    let lines = seq![line] + rest;
    assert(lines[0] == line);
    assert(lines.drop_first() =~= rest);
}

/// The rendered text of a configuration, line by line, with the
/// empty segment that follows the final newline.
pub open spec fn spec_rendered_lines(c: ServerConfigV) -> Seq<Seq<char>> {
    seq![
        "// CS2 Server Configuration"@,
        "hostname"@ + " \""@ + c.hostname + "\""@,
        "rcon_password"@ + " \""@ + c.rcon_password + "\""@,
        "sv_password"@ + " \""@ + c.sv_password + "\""@,
        "maxplayers"@ + " "@ + spec_u32_digits(c.maxplayers as nat),
        "map"@ + " "@ + c.map,
        "game_mode"@ + " "@ + c.game_mode,
        "game_type"@ + " "@ + c.game_type,
        Seq::<char>::empty(),
    ]
}

/// The rendered text splits on newlines into exactly the rendered
/// lines, in order.
#[verifier::rlimit(100)]
proof fn lemma_cfg_string_splits(c: ServerConfigV)
    requires
        spec_round_trippable(c),
    ensures
        spec_split_from(spec_cfg_string(c), '\n', 0) == spec_rendered_lines(c),
{
    reveal_strlit("// CS2 Server Configuration\nhostname \"");
    reveal_strlit("\"\nrcon_password \"");
    reveal_strlit("\"\nsv_password \"");
    reveal_strlit("\"\nmaxplayers ");
    reveal_strlit("\nmap ");
    reveal_strlit("\ngame_mode ");
    reveal_strlit("\ngame_type ");
    reveal_strlit("\n");
    reveal_strlit("// CS2 Server Configuration");
    reveal_strlit("hostname");
    reveal_strlit("rcon_password");
    reveal_strlit("sv_password");
    reveal_strlit("maxplayers");
    reveal_strlit("map");
    reveal_strlit("game_mode");
    reveal_strlit("game_type");
    reveal_strlit(" \"");
    reveal_strlit("\"");
    reveal_strlit(" ");
    let nl = seq!['\n'];
    let d = spec_u32_digits(c.maxplayers as nat);
    lemma_u32_digits_roundtrip(c.maxplayers);
    let lines = spec_rendered_lines(c);
    let l0 = lines[0];
    let l1 = lines[1];
    let l2 = lines[2];
    let l3 = lines[3];
    let l4 = lines[4];
    let l5 = lines[5];
    let l6 = lines[6];
    let l7 = lines[7];
    let r8 = Seq::<char>::empty();
    let r7 = l7 + nl + r8;
    let r6 = l6 + nl + r7;
    let r5 = l5 + nl + r6;
    let r4 = l4 + nl + r5;
    let r3 = l3 + nl + r4;
    let r2 = l2 + nl + r3;
    let r1 = l1 + nl + r2;
    let s = spec_cfg_string(c);
    assert(s =~= l0 + nl + r1);
    assert(forall|i: int| 0 <= i < l0.len() ==> l0[i] != '\n');
    assert(forall|i: int| 0 <= i < d.len() ==> crate::strutil::is_dec_digit(#[trigger] d[i]));
    assert(forall|i: int| 0 <= i < l1.len() ==> l1[i] != '\n') by {
        assert(forall|i: int|
            8 + 2 <= i < l1.len() - 1 ==> l1[i] == c.hostname[i - 10] && l1[i] != '\n');
    }
    assert(forall|i: int| 0 <= i < l2.len() ==> l2[i] != '\n') by {
        assert(forall|i: int|
            13 + 2 <= i < l2.len() - 1 ==> l2[i] == c.rcon_password[i - 15] && l2[i] != '\n');
    }
    assert(forall|i: int| 0 <= i < l3.len() ==> l3[i] != '\n') by {
        assert(forall|i: int|
            11 + 2 <= i < l3.len() - 1 ==> l3[i] == c.sv_password[i - 13] && l3[i] != '\n');
    }
    assert(forall|i: int| 0 <= i < l4.len() ==> l4[i] != '\n') by {
        assert(forall|i: int| 10 + 1 <= i < l4.len() ==> l4[i] == d[i - 11] && l4[i] != '\n');
    }
    assert(forall|i: int| 0 <= i < l5.len() ==> l5[i] != '\n') by {
        assert(forall|i: int| 3 + 1 <= i < l5.len() ==> l5[i] == c.map[i - 4] && l5[i] != '\n');
    }
    assert(forall|i: int| 0 <= i < l6.len() ==> l6[i] != '\n') by {
        assert(forall|i: int|
            9 + 1 <= i < l6.len() ==> l6[i] == c.game_mode[i - 10] && l6[i] != '\n');
    }
    assert(forall|i: int| 0 <= i < l7.len() ==> l7[i] != '\n') by {
        assert(forall|i: int|
            9 + 1 <= i < l7.len() ==> l7[i] == c.game_type[i - 10] && l7[i] != '\n');
    }
    lemma_split_cons(l0, '\n', r1);
    lemma_split_cons(l1, '\n', r2);
    lemma_split_cons(l2, '\n', r3);
    lemma_split_cons(l3, '\n', r4);
    lemma_split_cons(l4, '\n', r5);
    lemma_split_cons(l5, '\n', r6);
    lemma_split_cons(l6, '\n', r7);
    lemma_split_cons(l7, '\n', r8);
    lemma_split_single(r8, '\n');
    assert(spec_split_from(s, '\n', 0) =~= lines);
}

/// Folding the rendered lines over the default configuration yields
/// the configuration they were rendered from.
#[verifier::rlimit(100)]
proof fn lemma_rendered_lines_fold(c: ServerConfigV)
    requires
        spec_round_trippable(c),
    ensures
        spec_apply_lines(spec_default(), spec_rendered_lines(c)) == Ok::<ServerConfigV, CoreError>(
            c,
        ),
{
    reveal_strlit("// CS2 Server Configuration");
    reveal_strlit("hostname");
    reveal_strlit("rcon_password");
    reveal_strlit("sv_password");
    reveal_strlit("maxplayers");
    reveal_strlit("map");
    reveal_strlit("game_mode");
    reveal_strlit("game_type");
    reveal_strlit("//");
    let d = spec_u32_digits(c.maxplayers as nat);
    lemma_u32_digits_roundtrip(c.maxplayers);
    let lines = spec_rendered_lines(c);
    let l0 = lines[0];
    assert(key_shape_ok("hostname"@));
    assert(key_shape_ok("rcon_password"@));
    assert(key_shape_ok("sv_password"@));
    assert(key_shape_ok("maxplayers"@));
    assert(key_shape_ok("map"@));
    assert(key_shape_ok("game_mode"@));
    assert(key_shape_ok("game_type"@));
    assert(spec_bare_value_ok(d)) by {
        assert(forall|i: int| 0 <= i < d.len() ==> crate::strutil::is_dec_digit(#[trigger] d[i]));
    }
    assert("rcon_password"@ != "hostname"@);
    assert("sv_password"@ != "hostname"@ && "sv_password"@ != "rcon_password"@);
    assert("maxplayers"@ != "hostname"@ && "maxplayers"@ != "rcon_password"@ && "maxplayers"@
        != "sv_password"@);
    assert("map"@ != "hostname"@ && "map"@ != "rcon_password"@ && "map"@ != "sv_password"@
        && "map"@ != "maxplayers"@);
    assert("game_mode"@ != "hostname"@ && "game_mode"@ != "rcon_password"@ && "game_mode"@
        != "sv_password"@ && "game_mode"@ != "maxplayers"@ && "game_mode"@ != "map"@);
    assert("game_type"@ != "hostname"@ && "game_type"@ != "rcon_password"@ && "game_type"@
        != "sv_password"@ && "game_type"@ != "maxplayers"@ && "game_type"@ != "map"@
        && ("game_type"@)[5] != ("game_mode"@)[5]);
    assert("game_type"@ != "game_mode"@);
    let c0 = spec_default();
    lemma_quoted_line_step(c0, "hostname"@, c.hostname);
    let c1 = ServerConfigV { hostname: c.hostname, ..c0 };
    assert(spec_set(c0, "hostname"@, c.hostname) == Ok::<ServerConfigV, CoreError>(c1));
    lemma_quoted_line_step(c1, "rcon_password"@, c.rcon_password);
    let c2 = ServerConfigV { rcon_password: c.rcon_password, ..c1 };
    assert(spec_set(c1, "rcon_password"@, c.rcon_password) == Ok::<ServerConfigV, CoreError>(c2));
    lemma_quoted_line_step(c2, "sv_password"@, c.sv_password);
    let c3 = ServerConfigV { sv_password: c.sv_password, ..c2 };
    assert(spec_set(c2, "sv_password"@, c.sv_password) == Ok::<ServerConfigV, CoreError>(c3));
    lemma_bare_line_step(c3, "maxplayers"@, d);
    let c4 = ServerConfigV { maxplayers: c.maxplayers, ..c3 };
    assert(spec_set(c3, "maxplayers"@, d) == Ok::<ServerConfigV, CoreError>(c4));
    lemma_bare_line_step(c4, "map"@, c.map);
    let c5 = ServerConfigV { map: c.map, ..c4 };
    assert(spec_set(c4, "map"@, c.map) == Ok::<ServerConfigV, CoreError>(c5));
    lemma_bare_line_step(c5, "game_mode"@, c.game_mode);
    let c6 = ServerConfigV { game_mode: c.game_mode, ..c5 };
    assert(spec_set(c5, "game_mode"@, c.game_mode) == Ok::<ServerConfigV, CoreError>(c6));
    lemma_bare_line_step(c6, "game_type"@, c.game_type);
    let c7 = ServerConfigV { game_type: c.game_type, ..c6 };
    assert(spec_set(c6, "game_type"@, c.game_type) == Ok::<ServerConfigV, CoreError>(c7));
    assert(c7 == c);

    // the header line is a comment and is skipped
    lemma_trim_of_clean(l0);
    assert(spec_starts_with(l0, "//"@)) by {
        assert(l0.subrange(0, 2) =~= "//"@);
    }
    assert(spec_line_step(c0, l0) == Ok::<ServerConfigV, CoreError>(c0));

    // the final empty segment is skipped
    let r8 = Seq::<char>::empty();
    assert(spec_trim(r8).len() == 0);
    assert(spec_line_step(c7, r8) == Ok::<ServerConfigV, CoreError>(c7));

    let t1 = lines.subrange(1, 9);
    let t2 = lines.subrange(2, 9);
    let t3 = lines.subrange(3, 9);
    let t4 = lines.subrange(4, 9);
    let t5 = lines.subrange(5, 9);
    let t6 = lines.subrange(6, 9);
    let t7 = lines.subrange(7, 9);
    let t8 = lines.subrange(8, 9);
    let t9 = Seq::<Seq<char>>::empty();
    assert(lines =~= seq![lines[0]] + t1);
    assert(t1 =~= seq![lines[1]] + t2);
    assert(t2 =~= seq![lines[2]] + t3);
    assert(t3 =~= seq![lines[3]] + t4);
    assert(t4 =~= seq![lines[4]] + t5);
    assert(t5 =~= seq![lines[5]] + t6);
    assert(t6 =~= seq![lines[6]] + t7);
    assert(t7 =~= seq![lines[7]] + t8);
    assert(t8 =~= seq![lines[8]] + t9);
    lemma_apply_cons(c0, lines[0], t1);
    lemma_apply_cons(c0, lines[1], t2);
    lemma_apply_cons(c1, lines[2], t3);
    lemma_apply_cons(c2, lines[3], t4);
    lemma_apply_cons(c3, lines[4], t5);
    lemma_apply_cons(c4, lines[5], t6);
    lemma_apply_cons(c5, lines[6], t7);
    lemma_apply_cons(c6, lines[7], t8);
    lemma_apply_cons(c7, lines[8], t9);
}

/// Round trip through save-then-load is lossless for the recognized
/// directives: rendering a configuration and parsing the text back
/// yields exactly the starting configuration, whenever each value fits
/// the shape it is rendered in.
pub proof fn lemma_save_then_load_is_lossless(c: ServerConfigV)
    requires
        spec_round_trippable(c),
    ensures
        spec_parse_cfg(spec_cfg_string(c)) == Ok::<ServerConfigV, CoreError>(c),
{
    lemma_cfg_string_splits(c);
    lemma_rendered_lines_fold(c);
}

} // verus!
