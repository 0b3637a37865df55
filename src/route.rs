use vstd::prelude::*;

verus! {

/// Whether `p` is a prefix of `s`.
pub open spec fn is_prefix(p: Seq<u8>, s: Seq<u8>) -> bool {
    p.len() <= s.len() && s.subrange(0, p.len() as int) == p
}

/// `s` without its prefix `p`, when `p` is one.
pub open spec fn strip_spec(s: Seq<u8>, p: Seq<u8>) -> Option<Seq<u8>> {
    if is_prefix(p, s) { Some(s.subrange(p.len() as int, s.len() as int)) } else { None }
}

/// Strips `p` from the front of `s`.
pub fn strip_prefix(s: &Vec<u8>, p: &Vec<u8>) -> (r: Option<Vec<u8>>)
    ensures
        r is None <==> strip_spec(s@, p@) is None,
        r is Some ==> Some(r->0@) == strip_spec(s@, p@),
{
    if p.len() > s.len() {
        return None;
    }
    let mut i: usize = 0;
    while i < p.len()
        invariant
            p@.len() <= s@.len(),
            i <= p@.len(),
            s@.subrange(0, i as int) == p@.subrange(0, i as int),
        decreases p@.len() - i,
    {
        if s[i] != p[i] {
            proof {
                assert(s@.subrange(0, p@.len() as int)[i as int] != p@[i as int]);
            }
            return None;
        }
        i = i + 1;
        proof {
            assert(s@.subrange(0, i as int) =~= p@.subrange(0, i as int));
        }
    }
    proof {
        assert(p@.subrange(0, p@.len() as int) =~= p@);
    }
    let mut out: Vec<u8> = Vec::new();
    let mut j: usize = p.len();
    while j < s.len()
        invariant
            p@.len() <= j <= s@.len(),
            out@ == s@.subrange(p@.len() as int, j as int),
        decreases s@.len() - j,
    {
        out.push(s[j]);
        j = j + 1;
        proof {
            assert(out@ =~= s@.subrange(p@.len() as int, j as int));
        }
    }
    Some(out)
}

/// Appends `b` to a copy of `a`.
pub fn concat(a: &Vec<u8>, b: &Vec<u8>) -> (r: Vec<u8>)
    ensures
        r@ == a@ + b@,
{
    let mut out: Vec<u8> = a.clone();
    let mut j: usize = 0;
    while j < b.len()
        invariant
            j <= b@.len(),
            out@ == a@ + b@.subrange(0, j as int),
        decreases b@.len() - j,
    {
        out.push(b[j]);
        j = j + 1;
        proof {
            assert(out@ =~= a@ + b@.subrange(0, j as int));
        }
    }
    proof {
        assert(b@.subrange(0, b@.len() as int) =~= b@);
    }
    out
}

/// The asset path with a leading `assets/` removed, if it has one.
pub open spec fn stripped_spec(path: Seq<u8>, root: Seq<u8>) -> Seq<u8> {
    match strip_spec(path, root) {
        Some(r) => r,
        None => path,
    }
}

/// The asset path relative to the asset root `root` (`assets/`).
pub fn strip_root(path: &Vec<u8>, root: &Vec<u8>) -> (r: Vec<u8>)
    ensures
        r@ == stripped_spec(path@, root@),
{
    match strip_prefix(path, root) {
        Some(r) => r,
        None => path.clone(),
    }
}

/// A redirect rule: requests under `source` go to `destination` plus the rest.
pub struct RedirectRule {
    pub source: Vec<u8>,
    pub destination: Vec<u8>,
}

/// Where a rule sends a relative asset path, if it matches.
pub open spec fn rule_target(rel: Seq<u8>, source: Seq<u8>, destination: Seq<u8>) -> Option<Seq<u8>> {
    match strip_spec(rel, source) {
        Some(rest) => Some(destination + rest),
        None => None,
    }
}

/// The first rule of `rules` (from index `i` on) that matches `rel`, applied.
pub open spec fn rules_target(rel: Seq<u8>, rules: Seq<(Seq<u8>, Seq<u8>)>) -> Option<Seq<u8>>
    decreases rules.len(),
{
    if rules.len() == 0 {
        None
    } else {
        match rule_target(rel, rules[0].0, rules[0].1) {
            Some(t) => Some(t),
            None => rules_target(rel, rules.subrange(1, rules.len() as int)),
        }
    }
}

pub open spec fn rules_view(rules: Seq<RedirectRule>) -> Seq<(Seq<u8>, Seq<u8>)> {
    rules.map_values(|r: RedirectRule| (r.source@, r.destination@))
}

/// The destination that the first matching rule gives for the relative path `rel`.
pub fn redirect_destination(rel: &Vec<u8>, rules: &Vec<RedirectRule>) -> (r: Option<Vec<u8>>)
    ensures
        r is None <==> rules_target(rel@, rules_view(rules@)) is None,
        r is Some ==> Some(r->0@) == rules_target(rel@, rules_view(rules@)),
{
    let mut i: usize = 0;
    proof {
        assert(rules_view(rules@).subrange(0, rules@.len() as int) =~= rules_view(rules@));
    }
    while i < rules.len()
        invariant
            i <= rules@.len(),
            rules_target(rel@, rules_view(rules@)) == rules_target(rel@, rules_view(rules@).subrange(i as int, rules@.len() as int)),
        decreases rules@.len() - i,
    {
        let ghost rest = rules_view(rules@).subrange(i as int, rules@.len() as int);
        proof {
            assert(rest[0] == (rules@[i as int].source@, rules@[i as int].destination@));
            assert(rest.subrange(1, rest.len() as int) =~= rules_view(rules@).subrange(i + 1, rules@.len() as int));
        }
        match strip_prefix(rel, &rules[i].source) {
            Some(rest_bytes) => {
                return Some(concat(&rules[i].destination, &rest_bytes));
            },
            None => {},
        }
        i = i + 1;
    }
    proof {
        assert(rules_view(rules@).subrange(i as int, rules@.len() as int).len() == 0);
    }
    None
}

} // verus!
