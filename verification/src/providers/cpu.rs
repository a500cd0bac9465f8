//! The processor provider: which temperature sensor it reads, and the history
//! of loads it keeps for a graph.
use crate::builtin::Record;
use crate::text::string_views;
use vstd::prelude::*;

verus! {

/// What the processor provider is started with.
pub struct CpuArgs {
    /// Nanoseconds between reports.
    pub duration: u64,
    /// The label of the temperature sensor to read.
    pub temp_sensor: String,
    /// How many loads to keep for the graph.
    pub count: usize,
}

/// The processor provider's state: the sensor chosen among the known ones and
/// the last loads, oldest first.
pub struct Cpu<T> {
    pub duration: u64,
    pub sensor: Option<usize>,
    pub acc: Record<T>,
}

/// Index of the first label from `i` on that equals `name`, or the length.
pub open spec fn first_label(labels: Seq<Seq<char>>, name: Seq<char>, i: int) -> int
    decreases labels.len() - i,
{
    if i < 0 || i >= labels.len() {
        labels.len() as int
    } else if labels[i] == name {
        i
    } else {
        first_label(labels, name, i + 1)
    }
}

/// Index of the first of `labels` that equals `name`.
fn find_label(labels: &Vec<String>, name: &String) -> (r: Option<usize>)
    ensures
        ({
            let k = first_label(string_views(labels@), name@, 0);
            if k < labels.len() {
                r == Some(k as usize)
            } else {
                r is None
            }
        }),
{
    let ghost ls = string_views(labels@);
    let mut i: usize = 0;
    while i < labels.len()
        invariant
            i <= labels.len(),
            ls == string_views(labels@),
            first_label(ls, name@, 0) == first_label(ls, name@, i as int),
        decreases labels.len() - i,
    {
        if labels[i] == *name {
            assert(first_label(ls, name@, i as int) == i as int);
            return Some(i);
        }
        i += 1;
    }
    None
}

impl<T: Copy> Cpu<T> {
    /// The provider for `args`, given the labels of the known sensors in order:
    /// the first sensor labelled `temp_sensor`, if any, and `count` loads of `zero`.
    pub fn init(args: CpuArgs, labels: &Vec<String>, zero: T) -> (c: Cpu<T>)
        ensures
            c.duration == args.duration,
            ({
                let k = first_label(string_views(labels@), args.temp_sensor@, 0);
                if k < labels.len() {
                    c.sensor == Some(k as usize)
                } else {
                    c.sensor is None
                }
            }),
            c.acc.points() == Seq::new(args.count as nat, |i: int| zero),
            c.acc.capacity() == args.count,
    {
        let sensor = find_label(labels, &args.temp_sensor);
        Cpu { duration: args.duration, sensor, acc: Record::new(args.count, zero) }
    }

    /// Nanoseconds between reports.
    pub fn duration(&self) -> (d: Option<u64>)
        ensures
            d == Some(self.duration),
    {
        Some(self.duration)
    }

    /// Takes in a new load: the oldest one drops out.
    pub fn update(&mut self, load: T)
        requires
            old(self).acc.points().len() > 0,
        ensures
            final(self).duration == old(self).duration,
            final(self).sensor == old(self).sensor,
            final(self).acc.points() == old(self).acc.points().drop_first().push(load),
            final(self).acc.capacity() == old(self).acc.capacity(),
    {
        self.acc.push_point(load);
    }
}

} // verus!
