//! Which Linux distribution this is.

use crate::text;
use crate::text::{lines_of, split_first, text_of, trimmed, words_of};
use vstd::prelude::*;

verus! {

#[derive(Clone, Copy, Debug, PartialEq, Eq, Structural)]
pub enum LinuxDistribution {
    LinuxMint,
    Ubuntu,
    Debian,
    Arch,
    Unknown,
}

impl LinuxDistribution {
    pub open spec fn name(self) -> Seq<char> {
        match self {
            LinuxDistribution::LinuxMint => "linuxmint"@,
            LinuxDistribution::Ubuntu => "ubuntu"@,
            LinuxDistribution::Debian => "debian"@,
            LinuxDistribution::Arch => "arch"@,
            LinuxDistribution::Unknown => "unknown"@,
        }
    }

    pub fn as_str(self) -> (r: &'static str)
        ensures
            r@ == self.name(),
    {
        match self {
            LinuxDistribution::LinuxMint => "linuxmint",
            LinuxDistribution::Ubuntu => "ubuntu",
            LinuxDistribution::Debian => "debian",
            LinuxDistribution::Arch => "arch",
            LinuxDistribution::Unknown => "unknown",
        }
    }
}

#[derive(Debug, PartialEq, Eq)]
pub struct DistroInfo {
    pub distribution: LinuxDistribution,
    pub pretty_name: Option<String>,
    pub id: Option<String>,
    pub id_like: Option<String>,
}

/// A value without the quotes around it.
pub open spec fn unquoted(s: Seq<char>) -> Seq<char> {
    if s.len() >= 2 && ((s[0] == '"' && s.last() == '"') || (s[0] == '\'' && s.last() == '\'')) {
        s.subrange(1, s.len() - 1)
    } else {
        s
    }
}

pub fn unquote(value: &str) -> (r: String)
    ensures
        r@ == unquoted(value@),
{
    let v = text::chars_of(value);
    let len: usize = v.len();
    if len >= 2 {
        let first = v[0];
        let last = v[len - 1];
        if (first == '"' && last == '"') || (first == '\'' && last == '\'') {
            return text::string_of(&v, 1, len - 1);
        }
    }
    value.to_owned()
}

/// The value that a line of an os-release file sets for `key`.
pub open spec fn setting_in(line: Seq<char>, key: Seq<char>) -> Option<Seq<char>> {
    let t = trimmed(line);
    if t.len() == 0 || t[0] == '#' {
        None
    } else {
        match split_first(t, '=') {
            Some((k, value)) if k == key => Some(unquoted(trimmed(value))),
            _ => None,
        }
    }
}

/// The value of `key`; the last line that sets it counts.
pub open spec fn setting(lines: Seq<Seq<char>>, key: Seq<char>) -> Option<Seq<char>>
    decreases lines.len(),
{
    if lines.len() == 0 {
        None
    } else {
        match setting_in(lines.last(), key) {
            Some(value) => Some(value),
            None => setting(lines.drop_last(), key),
        }
    }
}

/// The distribution of the first word that names one.
pub open spec fn related(words: Seq<Seq<char>>) -> LinuxDistribution
    decreases words.len(),
{
    if words.len() == 0 {
        LinuxDistribution::Unknown
    } else if words[0] == "ubuntu"@ {
        LinuxDistribution::Ubuntu
    } else if words[0] == "debian"@ {
        LinuxDistribution::Debian
    } else if words[0] == "arch"@ {
        LinuxDistribution::Arch
    } else {
        related(words.drop_first())
    }
}

pub open spec fn related_to(id_like: Option<Seq<char>>) -> LinuxDistribution {
    match id_like {
        Some(s) => related(words_of(s)),
        None => LinuxDistribution::Unknown,
    }
}

/// The distribution that an identifier names, or else the one it is like.
pub open spec fn identified(id: Option<Seq<char>>, id_like: Option<Seq<char>>) -> LinuxDistribution {
    if id == Some("linuxmint"@) {
        LinuxDistribution::LinuxMint
    } else if id == Some("ubuntu"@) {
        LinuxDistribution::Ubuntu
    } else if id == Some("debian"@) {
        LinuxDistribution::Debian
    } else if id == Some("arch"@) {
        LinuxDistribution::Arch
    } else {
        related_to(id_like)
    }
}

pub fn distribution_from_id_like(id_like: Option<&str>) -> (r: LinuxDistribution)
    ensures
        r == related_to(
            match id_like {
                Some(s) => Some(s@),
                None => None,
            },
        ),
{
    let names = match id_like {
        Some(names) => names,
        None => return LinuxDistribution::Unknown,
    };
    let words = text::words(names);
    let ghost all = text::views(words@);
    let mut i: usize = 0;
    assert(all.skip(0) =~= all);
    while i < words.len()
        invariant
            all == text::views(words@),
            i <= words.len(),
            related(all) == related(all.skip(i as int)),
            all == words_of(names@),
            id_like == Some(names),
        decreases words.len() - i,
    {
        proof {
            assert(all.skip(i as int)[0] == words@[i as int]@);
            assert(all.skip(i as int).drop_first() =~= all.skip(i + 1));
        }
        let word = words[i].as_str();
        if text::same(word, "ubuntu") {
            return LinuxDistribution::Ubuntu;
        }
        if text::same(word, "debian") {
            return LinuxDistribution::Debian;
        }
        if text::same(word, "arch") {
            return LinuxDistribution::Arch;
        }
        i += 1;
    }
    assert(all.skip(i as int) =~= Seq::empty());
    LinuxDistribution::Unknown
}

/// The key and value that a line sets.
fn line_setting(line: &str) -> (r: Option<(String, String)>)
    ensures
        match r {
            Some((key, value)) => forall|k: Seq<char>|
                #[trigger] setting_in(line@, k) == if k == key@ {
                    Some(value@)
                } else {
                    None
                },
            None => forall|k: Seq<char>| #[trigger] setting_in(line@, k) is None,
        },
{
    let t = text::trim(line);
    let v = text::chars_of(t.as_str());
    if v.len() == 0 || v[0] == '#' {
        return None;
    }
    match text::split_once(t.as_str(), '=') {
        Some((key, value)) => {
            let value = unquote(text::trim(value.as_str()).as_str());
            Some((key, value))
        },
        None => None,
    }
}

impl DistroInfo {
    /// What the text of an os-release file says.
    pub fn from_os_release(contents: &str) -> (r: Self)
        ensures
            text_of(r.id) == setting(lines_of(contents@), "ID"@),
            text_of(r.id_like) == setting(lines_of(contents@), "ID_LIKE"@),
            text_of(r.pretty_name) == setting(lines_of(contents@), "PRETTY_NAME"@),
            r.distribution == identified(text_of(r.id), text_of(r.id_like)),
    {
        let mut id: Option<String> = None;
        let mut id_like: Option<String> = None;
        let mut pretty_name: Option<String> = None;
        let lines = text::lines(contents);
        let ghost all = text::views(lines@);
        let mut i: usize = 0;
        proof {
            reveal_strlit("ID");
            reveal_strlit("ID_LIKE");
            reveal_strlit("PRETTY_NAME");
        }
        while i < lines.len()
            invariant
                all == text::views(lines@),
                i <= lines.len(),
                "ID"@.len() == 2,
                "ID_LIKE"@.len() == 7,
                "PRETTY_NAME"@.len() == 11,
                text_of(id) == setting(all.take(i as int), "ID"@),
                text_of(id_like) == setting(all.take(i as int), "ID_LIKE"@),
                text_of(pretty_name) == setting(all.take(i as int), "PRETTY_NAME"@),
            decreases lines.len() - i,
        {
            proof {
                assert(all.take(i + 1).drop_last() =~= all.take(i as int));
                assert(all.take(i + 1).last() == lines@[i as int]@);
            }
            if let Some((key, value)) = line_setting(lines[i].as_str()) {
                if text::same(key.as_str(), "ID") {
                    id = Some(value);
                } else if text::same(key.as_str(), "ID_LIKE") {
                    id_like = Some(value);
                } else if text::same(key.as_str(), "PRETTY_NAME") {
                    pretty_name = Some(value);
                }
            }
            i += 1;
        }
        assert(all.take(i as int) =~= all);
        let like: Option<&str> = match &id_like {
            Some(s) => Some(s.as_str()),
            None => None,
        };
        let distribution = match &id {
            Some(s) => if text::same(s.as_str(), "linuxmint") {
                LinuxDistribution::LinuxMint
            } else if text::same(s.as_str(), "ubuntu") {
                LinuxDistribution::Ubuntu
            } else if text::same(s.as_str(), "debian") {
                LinuxDistribution::Debian
            } else if text::same(s.as_str(), "arch") {
                LinuxDistribution::Arch
            } else {
                distribution_from_id_like(like)
            },
            None => distribution_from_id_like(like),
        };
        DistroInfo { distribution, pretty_name, id, id_like }
    }

    pub open spec fn shown_name(self) -> Seq<char> {
        match self.pretty_name {
            Some(s) => s@,
            None => self.distribution.name(),
        }
    }

    /// The name to show.
    pub fn pretty_name(&self) -> (r: &str)
        ensures
            r@ == self.shown_name(),
    {
        match &self.pretty_name {
            Some(s) => s.as_str(),
            None => self.distribution.as_str(),
        }
    }
}

/// A distribution is known by its identifier, or else by the first one it is like.
pub proof fn law_distributions_are_known_by_their_identifiers(
    id: Option<Seq<char>>,
    id_like: Option<Seq<char>>,
)
    ensures
        id == Some("linuxmint"@) ==> identified(id, id_like) == LinuxDistribution::LinuxMint,
        id == Some("ubuntu"@) ==> identified(id, id_like) == LinuxDistribution::Ubuntu,
        id == Some("debian"@) ==> identified(id, id_like) == LinuxDistribution::Debian,
        id == Some("arch"@) ==> identified(id, id_like) == LinuxDistribution::Arch,
        id != Some("linuxmint"@) && id != Some("ubuntu"@) && id != Some("debian"@) && id != Some(
            "arch"@,
        ) ==> identified(id, id_like) == match id_like {
            Some(s) => related(words_of(s)),
            None => LinuxDistribution::Unknown,
        },
{
    reveal_strlit("linuxmint");
    reveal_strlit("ubuntu");
    reveal_strlit("debian");
    reveal_strlit("arch");
    assert("linuxmint"@.len() == 9 && "arch"@.len() == 4);
    assert("ubuntu"@[0] == 'u' && "debian"@[0] == 'd' && "ubuntu"@.len() == 6);
    assert("debian"@.len() == 6);
}

/// Of the words that a distribution is like, the first that is known decides.
pub proof fn law_the_first_known_relation_decides(words: Seq<Seq<char>>, i: int)
    requires
        0 <= i <= words.len(),
        forall|k: int|
            0 <= k < i ==> #[trigger] words[k] != "ubuntu"@ && words[k] != "debian"@ && words[k]
                != "arch"@,
    ensures
        i == words.len() ==> related(words) == LinuxDistribution::Unknown,
        i < words.len() && words[i] == "ubuntu"@ ==> related(words) == LinuxDistribution::Ubuntu,
        i < words.len() && words[i] == "debian"@ ==> related(words) == LinuxDistribution::Debian,
        i < words.len() && words[i] == "arch"@ ==> related(words) == LinuxDistribution::Arch,
    decreases words.len(),
{
    reveal_strlit("ubuntu");
    reveal_strlit("debian");
    reveal_strlit("arch");
    assert("arch"@.len() == 4 && "ubuntu"@.len() == 6 && "debian"@.len() == 6);
    assert("ubuntu"@[0] == 'u' && "debian"@[0] == 'd');
    if i > 0 {
        assert(words[0] != "ubuntu"@ && words[0] != "debian"@ && words[0] != "arch"@);
        let rest = words.drop_first();
        assert forall|k: int| 0 <= k < i - 1 implies #[trigger] rest[k] != "ubuntu"@ && rest[k]
            != "debian"@ && rest[k] != "arch"@ by {
            assert(rest[k] == words[k + 1]);
        }
        law_the_first_known_relation_decides(rest, i - 1);
    }
}

/// The last line that sets a key counts.
pub proof fn law_the_last_setting_counts(lines: Seq<Seq<char>>, key: Seq<char>, i: int)
    requires
        0 <= i < lines.len(),
        setting_in(lines[i], key) is Some,
        forall|k: int| i < k < lines.len() ==> setting_in(#[trigger] lines[k], key) is None,
    ensures
        setting(lines, key) == setting_in(lines[i], key),
    decreases lines.len(),
{
    if i < lines.len() - 1 {
        assert(setting_in(lines[lines.len() - 1], key) is None);
        law_the_last_setting_counts(lines.drop_last(), key, i);
    }
}

/// A line sets a key to what stands behind the first `=`, without space and quotes around
/// it; a comment sets none.
pub proof fn law_what_a_line_sets(key: Seq<char>, value: Seq<char>, quoted: Seq<char>)
    requires
        key.len() > 0,
        forall|i: int|
            0 <= i < key.len() ==> #[trigger] key[i] != '=' && key[i] != '#' && !crate::text::is_white(
                key[i],
            ),
        value.len() > 0,
        forall|i: int|
            0 <= i < value.len() ==> #[trigger] value[i] != '"' && value[i] != '\''
                && !crate::text::is_white(value[i]),
        quoted == seq!['"'] + value + seq!['"'],
    ensures
        setting_in(key + seq!['='] + value, key) == Some(value),
        setting_in(key + seq!['='] + quoted, key) == Some(value),
        setting_in(seq!['#'] + key + seq!['='] + value, key) is None,
{
    let a = key + seq!['='] + value;
    let b = key + seq!['='] + quoted;
    let c = seq!['#'] + key + seq!['='] + value;
    assert(!key.contains('=')) by {
        if key.contains('=') {
            let i = choose|i: int| 0 <= i < key.len() && key[i] == '=';
            assert(key[i] != '=');
        }
    }
    assert(a[0] == key[0] && b[0] == key[0] && c[0] == '#');
    assert(a.last() == value.last() && value.last() == value[value.len() - 1]);
    assert(b.last() == '"' && c.last() == value.last());
    lemma_ends_kept(a);
    lemma_ends_kept(b);
    lemma_ends_kept(c);
    lemma_ends_kept(value);
    lemma_ends_kept(quoted);
    crate::text::law_a_text_is_cut_at_the_first_place(key, '=', value);
    crate::text::law_a_text_is_cut_at_the_first_place(key, '=', quoted);
    assert(unquoted(value) == value) by {
        assert(value[0] != '"' && value[0] != '\'');
    }
    assert(quoted.subrange(1, quoted.len() - 1) =~= value);
}

proof fn lemma_ends_kept(s: Seq<char>)
    requires
        s.len() > 0,
        !crate::text::is_white(s[0]),
        !crate::text::is_white(s.last()),
    ensures
        trimmed(s) == s,
{
}

} // verus!
