//! What the tasks are set up with.

use crate::statements::{first_index_of, lemma_first_index_of, texts};
use vstd::prelude::*;
use vstd::string::{StrSliceExecFns, StringExecFns};

verus! {

/// Seconds between two cycles that take in new posts.
pub const INGEST_INTERVAL_SECS: u64 = 600;

/// The character between two channels in a list of channels.
pub const LIST_SEPARATOR: char = ',';

/// The channels that are asked where none are set.
pub open spec fn default_channel_names() -> Seq<Seq<char>> {
    seq!["birbs"@, "parrots"@, "birb"@]
}

/// The entries of a list: what stands before the first separator, then the
/// entries of what follows it. Entries are taken as they stand, empty ones
/// too.
pub open spec fn list_entries(list: Seq<char>) -> Seq<Seq<char>>
    decreases list.len(),
{
    let cut = first_index_of(list, LIST_SEPARATOR);
    if 0 <= cut < list.len() {
        seq![list.take(cut)] + list_entries(list.skip(cut + 1))
    } else {
        seq![list]
    }
}

/// The channels that are asked where none are set: `birbs`, `parrots` and
/// `birb`.
pub fn default_channels() -> (channels: Vec<String>)
    ensures
        texts(channels@) == default_channel_names(),
{
    let mut channels: Vec<String> = Vec::new();
    channels.push(String::from_str("birbs"));
    channels.push(String::from_str("parrots"));
    channels.push(String::from_str("birb"));
    assert(texts(channels@) =~= default_channel_names());
    channels
}

/// Cuts a list at its separators. A list without a separator has one
/// entry, itself; an empty list has one empty entry.
pub fn split_list(list: &str) -> (entries: Vec<String>)
    ensures
        texts(entries@) == list_entries(list@),
{
    let n = list.unicode_len();
    let mut entries: Vec<String> = Vec::new();
    let mut start: usize = 0;
    let mut i: usize = 0;
    proof {
        assert(list@.skip(0) =~= list@);
        assert(texts(entries@) =~= Seq::<Seq<char>>::empty());
    }
    for c in it: list.chars()
        invariant
            n == list@.len(),
            it.seq() == list@,
            i == it.index(),
            start <= i <= n,
            forall|k: int| start <= k < i ==> list@[k] != LIST_SEPARATOR,
            texts(entries@) + list_entries(list@.skip(start as int)) == list_entries(list@),
    {
        assert(c == list@[i as int]);
        if c == LIST_SEPARATOR {
            let ghost rest = list@.skip(start as int);
            let ghost before = texts(entries@);
            proof {
                assert forall|k: int| 0 <= k < i - start implies rest[k] != LIST_SEPARATOR by {
                    assert(rest[k] == list@[k + start]);
                }
                lemma_first_index_of(rest, LIST_SEPARATOR, i - start);
                assert(rest.take(i - start) =~= list@.subrange(start as int, i as int));
                assert(rest.skip(i - start + 1) =~= list@.skip(i + 1));
            }
            entries.push(String::from_str(list.substring_char(start, i)));
            proof {
                assert(texts(entries@) =~= before + seq![list@.subrange(start as int, i as int)]);
                assert(texts(entries@) + list_entries(list@.skip(i + 1)) =~= before + list_entries(
                    rest,
                ));
            }
            start = i + 1;
        }
        i += 1;
    }
    let ghost rest = list@.skip(start as int);
    let ghost before = texts(entries@);
    proof {
        assert forall|k: int| 0 <= k < rest.len() implies rest[k] != LIST_SEPARATOR by {
            assert(rest[k] == list@[k + start]);
        }
        lemma_first_index_of(rest, LIST_SEPARATOR, rest.len() as int);
        assert(rest =~= list@.subrange(start as int, n as int));
    }
    entries.push(String::from_str(list.substring_char(start, n)));
    assert(texts(entries@) =~= before + seq![rest]);
    entries
}

/// The channels to ask: the entries of the list that was set, or the
/// default channels where none was set.
pub fn channels(configured: Option<&str>) -> (channels: Vec<String>)
    ensures
        configured matches Some(list) ==> texts(channels@) == list_entries(list@),
        configured is None ==> texts(channels@) == default_channel_names(),
{
    match configured {
        Some(list) => split_list(list),
        None => default_channels(),
    }
}

} // verus!
