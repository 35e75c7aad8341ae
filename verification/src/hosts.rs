//! Hosts-file entries: the text edits that map a development domain to the
//! loopback address.  Reading and writing the hosts file is the shell's
//! work; the content transformations are verified here.

use vstd::prelude::*;
use crate::strutil::{contains_sub, has_sub, spec_join, spec_split, split_char, join_with};

verus! {

/// The hosts-file line claimed for a domain.
pub open spec fn spec_host_entry(domain: Seq<char>) -> Seq<char> {
    "127.0.0.1 "@ + domain
}

/// The fixed location of the hosts file.
pub fn get_hosts_path() -> (r: String)
    ensures
        r@ == "/etc/hosts"@,
{
    String::from_str("/etc/hosts")
}

/// The loopback entry for `domain`.
pub fn host_entry_line(domain: &str) -> (r: String)
    ensures
        r@ == spec_host_entry(domain@),
{
    let mut s = String::from_str("127.0.0.1 ");
    s.append(domain);
    s
}

/// New hosts-file content with the entry for `domain` appended on a line of
/// its own, or nothing when the entry is already present somewhere in the
/// content.
pub fn add_host_entry(content: &str, domain: &str) -> (r: Option<String>)
    ensures
        has_sub(content@, spec_host_entry(domain@)) ==> r is None,
        !has_sub(content@, spec_host_entry(domain@)) ==> (r matches Some(c) && c@ == content@
            + "\n"@ + spec_host_entry(domain@) + "\n"@),
{
    let entry = host_entry_line(domain);
    if contains_sub(content, entry.as_str()) {
        None
    } else {
        let mut out = content.to_owned();
        out.append("\n");
        out.append(entry.as_str());
        out.append("\n");
        Some(out)
    }
}

/// Keep a line exactly when it does not mention the entry for `domain`.
pub open spec fn spec_keeps_line(domain: Seq<char>) -> spec_fn(Seq<char>) -> bool {
    |l: Seq<char>| !has_sub(l, spec_host_entry(domain))
}

/// New hosts-file content with every line that mentions the entry for
/// `domain` dropped: the content is cut at newlines, the lines containing
/// the entry are removed, and the rest are joined with newlines again.
pub fn remove_host_entry(content: &str, domain: &str) -> (r: String)
    ensures
        r@ == spec_join(spec_split(content@, '\n').filter(spec_keeps_line(domain@)), '\n'),
{
    let entry = host_entry_line(domain);
    let lines = split_char(content, '\n');
    let n = lines.len();
    let mut kept: Vec<String> = Vec::new();
    let mut i: usize = 0;
    proof {
        reveal(Seq::filter);
        assert(lines.deep_view().take(0) =~= Seq::<Seq<char>>::empty());
        assert(kept.deep_view() =~= Seq::<Seq<char>>::empty());
        assert(Seq::<Seq<char>>::empty().filter(spec_keeps_line(domain@))
            =~= Seq::<Seq<char>>::empty());
    }
    while i < n
        invariant
            n == lines@.len(),
            i <= n,
            entry@ == spec_host_entry(domain@),
            kept.deep_view() == lines.deep_view().take(i as int).filter(spec_keeps_line(domain@)),
        decreases n - i,
    {
        let ghost dvt = lines.deep_view().take(i as int);
        let ghost dv1 = lines.deep_view().take(i + 1);
        proof {
            reveal(Seq::filter);
            assert(dv1.drop_last() =~= dvt);
            assert(dv1.last() == lines@[i as int]@);
        }
        let ghost kept0 = kept.deep_view();
        let line = &lines[i];
        if !contains_sub(line.as_str(), entry.as_str()) {
            let piece = line.clone();
            kept.push(piece);
            proof {
                reveal(Seq::filter);
                assert(spec_keeps_line(domain@)(dv1.last()));
                assert(kept.deep_view() =~= kept0.push(lines@[i as int]@));
                assert(dv1.filter(spec_keeps_line(domain@)) == dvt.filter(
                    spec_keeps_line(domain@),
                ).push(dv1.last()));
            }
        } else {
            proof {
                reveal(Seq::filter);
                assert(!spec_keeps_line(domain@)(dv1.last()));
                assert(dv1.filter(spec_keeps_line(domain@)) == dvt.filter(
                    spec_keeps_line(domain@),
                ));
            }
        }
        i = i + 1;
    }
    proof {
        assert(lines.deep_view().take(n as int) =~= lines.deep_view());
        assert(lines.deep_view() == spec_split(content@, '\n'));
        reveal_strlit("\n");
    }
    join_with(&kept, "\n")
}

} // verus!
