//! The admin server's settings and the values they take when nothing is
//! configured.
use vstd::prelude::*;
use crate::text::{blank, chars_of, is_blank, owned, string_of, trim, trimmed};
use crate::agent::models::strs;

verus! {

pub struct Config {
    /// Listen address, e.g. 0.0.0.0:9000
    pub bind: String,
    /// Legacy / service bootstrap token (`X-AxleOps-Token`). Still accepted for automation.
    pub token: String,
    /// Where SQLite and runtime data live
    pub data_dir: String,
    /// Created on first boot when users table is empty
    pub seed_username: String,
    pub seed_password: String,
    /// Session lifetime for username/password login
    pub session_ttl_hours: u64,
    /// Browser CORS allow-list.
    /// Empty or containing `"*"` → permissive (dev-friendly).
    /// Otherwise only listed origins (e.g. `["https://ops.example.com"]`).
    pub cors_origins: Vec<String>,
}

impl Default for Config {
    fn default() -> (c: Self)
        ensures
            c.bind@ == "0.0.0.0:9000"@,
            c.token@ == "change-me-to-a-long-secret"@,
            c.data_dir@ == "./data"@,
            c.seed_username@ == "admin"@,
            c.seed_password@ == "change-me-admin"@,
            c.session_ttl_hours == 24,
            c.cors_origins@.len() == 0,
    {
        Config {
            bind: owned("0.0.0.0:9000"),
            token: owned("change-me-to-a-long-secret"),
            data_dir: owned("./data"),
            seed_username: owned("admin"),
            seed_password: owned("change-me-admin"),
            session_ttl_hours: 24,
            cors_origins: Vec::new(),
        }
    }
}

/// CORS is permissive when no origin is listed or one of them is `*`
/// (ignoring surrounding whitespace).
pub open spec fn permissive(origins: Seq<Seq<char>>) -> bool {
    origins.len() == 0 || exists|i: int| 0 <= i < origins.len() && trim(#[trigger] origins[i])
        == "*"@
}

impl Config {
    pub fn cors_is_permissive(&self) -> (r: bool)
        ensures
            r == permissive(strs(self.cors_origins@)),
    {
        let n = self.cors_origins.len();
        if n == 0 {
            return true;
        }
        let mut i: usize = 0;
        while i < n
            invariant
                i <= n,
                n == self.cors_origins@.len(),
                forall|k: int| 0 <= k < i ==> trim(#[trigger] strs(self.cors_origins@)[k]) != "*"@,
            decreases n - i,
        {
            let t = trimmed(self.cors_origins[i].as_str());
            if crate::text::str_eq(t.as_str(), "*") {
                assert(trim(strs(self.cors_origins@)[i as int]) == "*"@);
                return true;
            }
            i = i + 1;
        }
        false
    }
}

/// The pieces of `s` between commas, in order (what `str::split(',')`
/// gives).
pub open spec fn comma_pieces(s: Seq<char>) -> Seq<Seq<char>>
    decreases s.len(),
{
    if s.len() == 0 {
        seq![Seq::empty()]
    } else {
        let rest = comma_pieces(s.drop_last());
        if s.last() == ',' {
            rest.push(Seq::empty())
        } else {
            rest.update(rest.len() - 1, rest.last().push(s.last()))
        }
    }
}

proof fn lemma_comma_pieces_nonempty(s: Seq<char>)
    ensures
        comma_pieces(s).len() >= 1,
    decreases s.len(),
{
    if s.len() > 0 {
        lemma_comma_pieces_nonempty(s.drop_last());
    }
}

/// The non-blank pieces, trimmed.
pub open spec fn kept_origins(pieces: Seq<Seq<char>>) -> Seq<Seq<char>>
    decreases pieces.len(),
{
    if pieces.len() == 0 {
        Seq::empty()
    } else {
        let rest = kept_origins(pieces.drop_last());
        if blank(pieces.last()) {
            rest
        } else {
            rest.push(trim(pieces.last()))
        }
    }
}

/// The origins of `AXLEOPS_ADMIN_CORS_ORIGINS`: split at commas, each
/// trimmed, blanks dropped.
pub fn split_origins(v: &str) -> (r: Vec<String>)
    ensures
        strs(r@) == kept_origins(comma_pieces(v@)),
{
    let chars = chars_of(v);
    let mut start: usize = 0;
    let mut i: usize = 0;
    let mut out: Vec<String> = Vec::new();
    while i < chars.len()
        invariant
            i <= chars.len(),
            start <= i,
            chars@ == v@,
            comma_pieces(v@.take(i as int)).len() >= 1,
            kept_origins(comma_pieces(v@.take(i as int)).drop_last()) == strs(out@),
            comma_pieces(v@.take(i as int)).last() == v@.subrange(start as int, i as int),
        decreases chars.len() - i,
    {
        proof {
            lemma_comma_pieces_nonempty(v@.take(i as int));
        }
        let ghost before = comma_pieces(v@.take(i as int));
        assert(v@.take(i + 1).drop_last() =~= v@.take(i as int));
        if chars[i] == ',' {
            let piece = string_of(&chars, start, i);
            let ghost out_before = strs(out@);
            if !is_blank(piece.as_str()) {
                out.push(trimmed(piece.as_str()));
                assert(strs(out@) =~= out_before.push(trim(piece@)));
            }
            proof {
                let after = comma_pieces(v@.take(i + 1));
                assert(after == before.push(Seq::empty()));
                assert(after.drop_last() =~= before);
                assert(before =~= before.drop_last().push(before.last()));
                assert(piece@ == before.last());
            }
            start = i + 1;
            assert(v@.subrange(start as int, i + 1) =~= Seq::<char>::empty());
        } else {
            proof {
                let after = comma_pieces(v@.take(i + 1));
                assert(after.drop_last() =~= before.drop_last());
                assert(v@.subrange(start as int, i + 1) =~= v@.subrange(start as int, i as int).push(
                    v@[i as int],
                ));
            }
        }
        i = i + 1;
    }
    let last = string_of(&chars, start, chars.len());
    let ghost out_before = strs(out@);
    let ghost all = comma_pieces(v@);
    assert(v@.take(chars.len() as int) =~= v@);
    proof {
        lemma_comma_pieces_nonempty(v@);
        assert(all =~= all.drop_last().push(all.last()));
    }
    if !is_blank(last.as_str()) {
        out.push(trimmed(last.as_str()));
        assert(strs(out@) =~= out_before.push(trim(last@)));
    }
    out
}

} // verus!
