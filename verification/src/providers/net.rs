//! The network provider: which adapter it reports on.
use crate::text::{chars_of, range_eq, string_views};
use vstd::prelude::*;

verus! {

/// What the network provider is started with.
pub struct NetArgs {
    /// Nanoseconds between reports.
    pub duration: u64,
    /// The adapter to report on; when absent, the first one that is not `lo`.
    pub adapter: Option<String>,
}

/// The network provider's settings once its adapter is chosen.
pub struct Net {
    pub duration: u64,
    pub adapter: String,
}

/// Whether an adapter is the loopback one, `lo`.
pub open spec fn is_loopback(name: Seq<char>) -> bool {
    name == seq!['l', 'o']
}

/// Index of the first name from `i` on that is not `lo`, or the length when
/// there is none.
pub open spec fn first_other(names: Seq<Seq<char>>, i: int) -> int
    decreases names.len() - i,
{
    if i < 0 || i >= names.len() {
        names.len() as int
    } else if !is_loopback(names[i]) {
        i
    } else {
        first_other(names, i + 1)
    }
}

/// The adapter chosen: the one named in the arguments, else the first known one
/// that is not `lo`, else none.
pub open spec fn chosen_adapter(given: Option<Seq<char>>, names: Seq<Seq<char>>) -> Option<Seq<char>> {
    match given {
        Some(a) => Some(a),
        None => {
            let k = first_other(names, 0);
            if k < names.len() {
                Some(names[k])
            } else {
                None
            }
        },
    }
}

impl Net {
    /// The provider for `args`, given the names of the known adapters in the
    /// order they are listed; none when no adapter can be chosen.
    pub fn init(args: NetArgs, names: &Vec<String>) -> (r: Option<Net>)
        ensures
            match chosen_adapter(
                match args.adapter {
                    Some(a) => Some(a@),
                    None => None,
                },
                string_views(names@),
            ) {
                Some(a) => r is Some && r->0.adapter@ == a && r->0.duration == args.duration,
                None => r is None,
            },
    {
        let ghost ns = string_views(names@);
        match args.adapter {
            Some(a) => Some(Net { duration: args.duration, adapter: a }),
            None => {
                let lo: &[char] = &['l', 'o'];
                assert(lo@ =~= seq!['l', 'o']);
                let mut i: usize = 0;
                while i < names.len()
                    invariant
                        i <= names.len(),
                        ns == string_views(names@),
                        lo@ == seq!['l', 'o'],
                        args.adapter is None,
                        first_other(ns, 0) == first_other(ns, i as int),
                    decreases names.len() - i,
                {
                    let v = chars_of(names[i].as_str());
                    assert(v@.subrange(0, v.len() as int) =~= ns[i as int]);
                    if !range_eq(&v, 0, v.len(), lo) {
                        assert(!is_loopback(ns[i as int]));
                        assert(first_other(ns, i as int) == i as int);
                        let adapter = names[i].clone();
                        assert(adapter@ == ns[i as int]);
                        assert(chosen_adapter(None, ns) == Some(ns[i as int]));
                        return Some(Net { duration: args.duration, adapter });
                    }
                    i += 1;
                }
                None
            },
        }
    }

    /// Nanoseconds between reports.
    pub fn duration(&self) -> (d: Option<u64>)
        ensures
            d == Some(self.duration),
    {
        Some(self.duration)
    }
}

} // verus!
