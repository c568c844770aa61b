//! Keeping API credentials in a file of environment variables.
use crate::text::{
    begins_with, is_blank, join, join_texts, lines_of, read_lines, same_text, starts_with, trim,
    trimmed, views,
};
use vstd::prelude::*;

verus! {

/// Names and values of the two variables of an environment.
#[derive(Clone, Debug)]
pub struct Credentials {
    pub key_var: String,
    pub secret_var: String,
    pub api_key: String,
    pub api_secret: String,
}

/// The model of credentials.
pub struct Secrets {
    pub key_var: Seq<char>,
    pub secret_var: Seq<char>,
    pub api_key: Seq<char>,
    pub api_secret: Seq<char>,
}

impl View for Credentials {
    type V = Secrets;

    open spec fn view(&self) -> Secrets {
        Secrets {
            key_var: self.key_var@,
            secret_var: self.secret_var@,
            api_key: self.api_key@,
            api_secret: self.api_secret@,
        }
    }
}

/// The names of the variables of an environment: live trading has its own.
pub open spec fn variables(live: bool) -> (Seq<char>, Seq<char>) {
    if live {
        ("BINANCE_API_KEY"@, "BINANCE_API_SECRET"@)
    } else {
        ("BINANCE_TESTNET_API_KEY"@, "BINANCE_TESTNET_API_SECRET"@)
    }
}

/// The names of the variables of an environment.
pub fn credential_variables(live: bool) -> (r: (&'static str, &'static str))
    ensures
        (r.0@, r.1@) == variables(live),
{
    if live {
        ("BINANCE_API_KEY", "BINANCE_API_SECRET")
    } else {
        ("BINANCE_TESTNET_API_KEY", "BINANCE_TESTNET_API_SECRET")
    }
}

/// The credentials that are saved, or why they are refused. Any mode but `live` is the testnet.
pub open spec fn accepted(api_key: Seq<char>, api_secret: Seq<char>, mode: Seq<char>) -> Result<
    Secrets,
    Seq<char>,
> {
    if trimmed(api_key).len() == 0 {
        Err("API key must not be empty."@)
    } else if trimmed(api_secret).len() == 0 {
        Err("API secret must not be empty."@)
    } else {
        let v = variables(trimmed(mode) == "live"@);
        Ok(
            Secrets {
                key_var: v.0,
                secret_var: v.1,
                api_key: trimmed(api_key),
                api_secret: trimmed(api_secret),
            },
        )
    }
}

/// Checks credentials before they are saved.
pub fn check_credentials(api_key: &str, api_secret: &str, mode: &str) -> (r: Result<
    Credentials,
    String,
>)
    ensures
        match accepted(api_key@, api_secret@, mode@) {
            Ok(c) => r is Ok && (r->Ok_0)@ == c,
            Err(e) => r is Err && (r->Err_0)@ == e,
        },
{
    let api_key = trim(api_key);
    let api_secret = trim(api_secret);
    if is_blank(&api_key) {
        return Err("API key must not be empty.".to_owned());
    }
    if is_blank(&api_secret) {
        return Err("API secret must not be empty.".to_owned());
    }
    let v = credential_variables(same_text(trim(mode).as_str(), "live"));
    Ok(
        Credentials {
            key_var: v.0.to_owned(),
            secret_var: v.1.to_owned(),
            api_key,
            api_secret,
        },
    )
}

impl Secrets {
    /// The beginning of the key's line.
    pub open spec fn key_prefix(self) -> Seq<char> {
        self.key_var + "="@
    }

    /// The beginning of the secret's line.
    pub open spec fn secret_prefix(self) -> Seq<char> {
        self.secret_var + "="@
    }

    /// The key's line.
    pub open spec fn key_line(self) -> Seq<char> {
        self.key_var + "="@ + self.api_key
    }

    /// The secret's line.
    pub open spec fn secret_line(self) -> Seq<char> {
        self.secret_var + "="@ + self.api_secret
    }

    /// The line sets the key.
    pub open spec fn sets_key(self, line: Seq<char>) -> bool {
        begins_with(line, self.key_prefix())
    }

    /// The line sets the secret.
    pub open spec fn sets_secret(self, line: Seq<char>) -> bool {
        !self.sets_key(line) && begins_with(line, self.secret_prefix())
    }

    /// What becomes of a line.
    pub open spec fn rewritten(self, line: Seq<char>) -> Seq<char> {
        if self.sets_key(line) {
            self.key_line()
        } else if self.sets_secret(line) {
            self.secret_line()
        } else {
            line
        }
    }

    /// Some line sets the key.
    pub open spec fn key_found(self, lines: Seq<Seq<char>>) -> bool {
        exists|i: int| 0 <= i < lines.len() && self.sets_key(#[trigger] lines[i])
    }

    /// Some line sets the secret.
    pub open spec fn secret_found(self, lines: Seq<Seq<char>>) -> bool {
        exists|i: int| 0 <= i < lines.len() && self.sets_secret(#[trigger] lines[i])
    }

    /// The lines after the credentials were saved: those that set them are updated in their place,
    /// what is missing is added at the end, and every other line is kept.
    pub open spec fn saved(self, lines: Seq<Seq<char>>) -> Seq<Seq<char>> {
        let kept = lines.map_values(|l: Seq<char>| self.rewritten(l));
        let with_key = if self.key_found(lines) {
            kept
        } else {
            kept.push(self.key_line())
        };
        if self.secret_found(lines) {
            with_key
        } else {
            with_key.push(self.secret_line())
        }
    }
}

/// The content of the file after the credentials were saved.
pub fn rewrite_env(existing: &str, c: &Credentials) -> (r: String)
    ensures
        r@ == join(c@.saved(lines_of(existing@)), '\n').push('\n'),
{
    let lines = read_lines(existing);
    let ghost all = lines_of(existing@);
    let key_prefix = c.key_var.clone().concat("=");
    let secret_prefix = c.secret_var.clone().concat("=");
    let key_line = key_prefix.clone().concat(c.api_key.as_str());
    let secret_line = secret_prefix.clone().concat(c.api_secret.as_str());
    let ghost kept = all.map_values(|l: Seq<char>| c@.rewritten(l));
    let mut new_lines: Vec<String> = Vec::new();
    let mut key_written = false;
    let mut secret_written = false;
    let mut i: usize = 0;
    while i < lines.len()
        invariant
            i <= lines.len(),
            views(lines@) == all,
            kept == all.map_values(|l: Seq<char>| c@.rewritten(l)),
            key_prefix@ == c@.key_prefix(),
            secret_prefix@ == c@.secret_prefix(),
            key_line@ == c@.key_line(),
            secret_line@ == c@.secret_line(),
            views(new_lines@) == kept.take(i as int),
            key_written == exists|k: int| 0 <= k < i && c@.sets_key(#[trigger] all[k]),
            secret_written == exists|k: int| 0 <= k < i && c@.sets_secret(#[trigger] all[k]),
        decreases lines.len() - i,
    {
        let line = lines[i].as_str();
        assert(all[i as int] == lines@[i as int]@);
        let ghost before = new_lines@;
        if starts_with(line, key_prefix.as_str()) {
            key_written = true;
            new_lines.push(key_line.clone());
            assert(c@.sets_key(all[i as int]));
        } else if starts_with(line, secret_prefix.as_str()) {
            secret_written = true;
            new_lines.push(secret_line.clone());
            assert(c@.sets_secret(all[i as int]));
        } else {
            new_lines.push(lines[i].clone());
        }
        assert(views(new_lines@) =~= views(before).push(kept[i as int]));
        i = i + 1;
        assert(views(new_lines@) =~= kept.take(i as int));
    }
    assert(kept.take(i as int) =~= kept);
    if !key_written {
        let ghost before = new_lines@;
        new_lines.push(key_line);
        assert(views(new_lines@) =~= views(before).push(key_line@));
    }
    if !secret_written {
        let ghost before = new_lines@;
        new_lines.push(secret_line);
        assert(views(new_lines@) =~= views(before).push(secret_line@));
    }
    assert(views(new_lines@) == c@.saved(all));
    let mut output = join_texts(&new_lines, '\n');
    output.push('\n');
    output
}

/// The names of the two variables of an environment: neither line looks like the other.
pub open spec fn proper(c: Secrets) -> bool {
    !begins_with(c.secret_line(), c.key_prefix())
}

/// A line that sets neither variable stays in its place.
pub proof fn law_other_lines_are_kept(c: Secrets, lines: Seq<Seq<char>>, i: int)
    requires
        0 <= i < lines.len(),
        !c.sets_key(lines[i]),
        !c.sets_secret(lines[i]),
    ensures
        i < c.saved(lines).len(),
        c.saved(lines)[i] == lines[i],
{
}

/// Saving the same credentials again changes nothing.
pub proof fn law_saving_twice_is_saving_once(c: Secrets, lines: Seq<Seq<char>>)
    requires
        proper(c),
    ensures
        c.saved(c.saved(lines)) == c.saved(lines),
        c.key_found(c.saved(lines)),
        c.secret_found(c.saved(lines)),
{
    let s = c.saved(lines);
    let kept = lines.map_values(|l: Seq<char>| c.rewritten(l));
    assert(c.key_line().take(c.key_prefix().len() as int) =~= c.key_prefix());
    assert(c.secret_line().take(c.secret_prefix().len() as int) =~= c.secret_prefix());
    assert(c.sets_key(c.key_line()));
    assert(c.sets_secret(c.secret_line()));
    if c.key_found(lines) {
        let i = choose|i: int| 0 <= i < lines.len() && c.sets_key(#[trigger] lines[i]);
        assert(s[i] == c.key_line());
    } else {
        assert(s[kept.len() as int] == c.key_line());
    }
    if c.secret_found(lines) {
        let i = choose|i: int| 0 <= i < lines.len() && c.sets_secret(#[trigger] lines[i]);
        assert(s[i] == c.secret_line());
    } else {
        assert(s[s.len() - 1] == c.secret_line());
    }
    assert forall|i: int| 0 <= i < s.len() implies c.rewritten(#[trigger] s[i]) == s[i] by {
        if i < lines.len() {
            assert(s[i] == c.rewritten(lines[i]));
        }
    }
    assert(s.map_values(|l: Seq<char>| c.rewritten(l)) =~= s);
}

/// The credentials that are accepted have proper names.
pub proof fn law_accepted_are_proper(api_key: Seq<char>, api_secret: Seq<char>, mode: Seq<char>)
    requires
        accepted(api_key, api_secret, mode) is Ok,
    ensures
        proper(accepted(api_key, api_secret, mode)->Ok_0),
{
    let c = accepted(api_key, api_secret, mode)->Ok_0;
    reveal_strlit("BINANCE_API_KEY");
    reveal_strlit("BINANCE_API_SECRET");
    reveal_strlit("BINANCE_TESTNET_API_KEY");
    reveal_strlit("BINANCE_TESTNET_API_SECRET");
    reveal_strlit("=");
    let k = c.key_prefix();
    let n = k.len() as int;
    let at = if trimmed(mode) == "live"@ {
        12
    } else {
        20
    };
    if begins_with(c.secret_line(), k) {
        assert(c.secret_line().take(n)[at] == k[at]);
        assert(c.secret_line()[at] == 'S');
        assert(k[at] == 'K');
    }
}

/// After credentials were saved, the file sets them: it has a line with the key and one with the
/// secret, every line that sets either variable sets it to the new value, and there are at most two
/// lines more than before.
pub proof fn law_saved_file_sets_credentials(c: Secrets, lines: Seq<Seq<char>>)
    requires
        proper(c),
    ensures
        ({
            let s = c.saved(lines);
            &&& s.contains(c.key_var + "="@ + c.api_key)
            &&& s.contains(c.secret_var + "="@ + c.api_secret)
            &&& forall|i: int|
                0 <= i < s.len() && begins_with(#[trigger] s[i], c.key_var + "="@) ==> s[i]
                    == c.key_var + "="@ + c.api_key
            &&& forall|i: int|
                0 <= i < s.len() && begins_with(#[trigger] s[i], c.secret_var + "="@) && !begins_with(
                    s[i],
                    c.key_var + "="@,
                ) ==> s[i] == c.secret_var + "="@ + c.api_secret
            &&& lines.len() <= s.len() <= lines.len() + 2
        }),
{
    let s = c.saved(lines);
    law_saving_twice_is_saving_once(c, lines);
    let i = choose|i: int| 0 <= i < s.len() && c.sets_key(#[trigger] s[i]);
    let j = choose|j: int| 0 <= j < s.len() && c.sets_secret(#[trigger] s[j]);
    let again = s.map_values(|l: Seq<char>| c.rewritten(l));
    assert(c.saved(s) == again);
    assert(again[i] == s[i]);
    assert(again[j] == s[j]);
    assert(s.contains(s[i]));
    assert(s.contains(s[j]));
    assert forall|k: int| 0 <= k < s.len() implies c.rewritten(#[trigger] s[k]) == s[k] by {
        assert(again[k] == s[k]);
    }
}

/// What is accepted: a key and a secret that are not blank, without the space around them, for the
/// variables of the environment that the mode names. A blank key is refused before a blank secret.
pub proof fn law_accepted_by_mode(api_key: Seq<char>, api_secret: Seq<char>, mode: Seq<char>)
    ensures
        accepted(api_key, api_secret, mode) is Ok <==> trimmed(api_key).len() > 0 && trimmed(
            api_secret,
        ).len() > 0,
        trimmed(api_key).len() == 0 ==> accepted(api_key, api_secret, mode) == Err::<
            Secrets,
            Seq<char>,
        >("API key must not be empty."@),
        accepted(api_key, api_secret, mode) matches Ok(c) ==> {
            &&& c.api_key == trimmed(api_key) && c.api_secret == trimmed(api_secret)
            &&& trimmed(mode) == "live"@ ==> c.key_var == "BINANCE_API_KEY"@ && c.secret_var
                == "BINANCE_API_SECRET"@
            &&& trimmed(mode) != "live"@ ==> c.key_var == "BINANCE_TESTNET_API_KEY"@ && c.secret_var
                == "BINANCE_TESTNET_API_SECRET"@
        },
{
}

/// The two environments are kept apart: saving the credentials of one leaves every line of the other
/// as it is.
pub proof fn law_environments_are_apart(
    api_key: Seq<char>,
    api_secret: Seq<char>,
    mode: Seq<char>,
    lines: Seq<Seq<char>>,
    i: int,
)
    requires
        accepted(api_key, api_secret, mode) is Ok,
        0 <= i < lines.len(),
        ({
            let v = variables(trimmed(mode) != "live"@);
            begins_with(lines[i], v.0 + "="@) || begins_with(lines[i], v.1 + "="@)
        }),
    ensures
        accepted(api_key, api_secret, mode)->Ok_0.saved(lines)[i] == lines[i],
{
    let c = accepted(api_key, api_secret, mode)->Ok_0;
    let v = variables(trimmed(mode) != "live"@);
    let line = lines[i];
    reveal_strlit("BINANCE_API_KEY");
    reveal_strlit("BINANCE_API_SECRET");
    reveal_strlit("BINANCE_TESTNET_API_KEY");
    reveal_strlit("BINANCE_TESTNET_API_SECRET");
    reveal_strlit("=");
    let p = if begins_with(line, v.0 + "="@) {
        v.0 + "="@
    } else {
        v.1 + "="@
    };
    assert(line.take(p.len() as int)[8] == p[8]);
    assert(line[8] == p[8]);
    if c.sets_key(line) {
        let k = c.key_prefix();
        assert(line.take(k.len() as int)[8] == k[8]);
    }
    if c.sets_secret(line) {
        let k = c.secret_prefix();
        assert(line.take(k.len() as int)[8] == k[8]);
    }
    law_other_lines_are_kept(c, lines, i);
}

} // verus!
