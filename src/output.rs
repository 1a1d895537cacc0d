use vstd::prelude::*;

use crate::snapshot::{Snapshot, texts};
use crate::text::{decimal, push_decimal};

verus! {

/// Fields separated by `sep`.
pub open spec fn join(fields: Seq<Seq<char>>, sep: Seq<char>) -> Seq<char>
    decreases fields.len(),
{
    if fields.len() == 0 {
        Seq::empty()
    } else if fields.len() == 1 {
        fields[0]
    } else {
        join(fields.drop_last(), sep) + sep + fields.last()
    }
}

/// One line of the report: its fields separated by `sep`, then a newline.
pub open spec fn line(fields: Seq<Seq<char>>, sep: Seq<char>) -> Seq<char> {
    join(fields, sep) + "\n"@
}

/// The header's fields: `Delta`, `Time`, then the metric names.
pub open spec fn header_fields(keys: Seq<Seq<char>>) -> Seq<Seq<char>> {
    seq!["Delta"@, "Time"@] + keys
}

/// The value of `key` in a snapshot, blank where the key is missing.
pub open spec fn field_of(snap: Map<Seq<char>, Seq<char>>, key: Seq<char>) -> Seq<char> {
    if snap.contains_key(key) {
        snap[key]
    } else {
        Seq::empty()
    }
}

/// A row's fields: milliseconds since the previous row, wall-clock
/// milliseconds since the epoch, then one value per header name.
pub open spec fn row_fields(
    delta_ms: u64,
    time_ms: u64,
    keys: Seq<Seq<char>>,
    snap: Map<Seq<char>, Seq<char>>,
) -> Seq<Seq<char>> {
    seq![decimal(delta_ms as nat), decimal(time_ms as nat)] + keys.map_values(
        |k: Seq<char>| field_of(snap, k),
    )
}

/// The header line for the given (sorted) metric names.
pub fn header_line(keys: &Vec<String>, sep: &str) -> (r: String)
    ensures
        r@ == line(header_fields(texts(keys@)), sep@),
{
    let mut s = String::from_str("Delta");
    s.append(sep);
    s.append("Time");
    assert(s@ == join(header_fields(texts(keys@.take(0))), sep@)) by {
        let f = header_fields(texts(keys@.take(0)));
        assert(f =~= seq!["Delta"@, "Time"@]);
        assert(f.drop_last() =~= seq!["Delta"@]);
        assert(join(f.drop_last(), sep@) == "Delta"@);
        assert(f.last() == "Time"@);
        assert(s@ =~= "Delta"@ + sep@ + "Time"@);
    }
    let mut i: usize = 0;
    while i < keys.len()
        invariant
            i <= keys@.len(),
            s@ == join(header_fields(texts(keys@.take(i as int))), sep@),
        decreases keys@.len() - i,
    {
        s.append(sep);
        s.append(keys[i].as_str());
        proof {
            let f = header_fields(texts(keys@.take(i + 1)));
            assert(f.drop_last() =~= header_fields(texts(keys@.take(i as int))));
            assert(f.last() == keys@[i as int]@);
        }
        i = i + 1;
    }
    assert(keys@.take(keys@.len() as int) =~= keys@);
    s.append("\n");
    s
}

/// The row for a snapshot under a header's names: a value for every name,
/// blank where the snapshot lacks it.
pub fn row_line(delta_ms: u64, time_ms: u64, keys: &Vec<String>, snapshot: &Snapshot, sep: &str) -> (r:
    String)
    requires
        snapshot.wf(),
    ensures
        r@ == line(row_fields(delta_ms, time_ms, texts(keys@), snapshot@), sep@),
{
    let mut s = String::new();
    push_decimal(&mut s, delta_ms);
    s.append(sep);
    push_decimal(&mut s, time_ms);
    assert(s@ == join(row_fields(delta_ms, time_ms, texts(keys@.take(0)), snapshot@), sep@)) by {
        let f = row_fields(delta_ms, time_ms, texts(keys@.take(0)), snapshot@);
        assert(f =~= seq![decimal(delta_ms as nat), decimal(time_ms as nat)]);
        assert(f.drop_last() =~= seq![decimal(delta_ms as nat)]);
        assert(join(f.drop_last(), sep@) == decimal(delta_ms as nat));
        assert(f.last() == decimal(time_ms as nat));
        assert(s@ =~= decimal(delta_ms as nat) + sep@ + decimal(time_ms as nat));
    }
    let mut i: usize = 0;
    while i < keys.len()
        invariant
            i <= keys@.len(),
            snapshot.wf(),
            s@ == join(row_fields(delta_ms, time_ms, texts(keys@.take(i as int)), snapshot@), sep@),
        decreases keys@.len() - i,
    {
        s.append(sep);
        match snapshot.get(&keys[i]) {
            Some(v) => {
                s.append(v.as_str());
            },
            None => {},
        }
        proof {
            let f = row_fields(delta_ms, time_ms, texts(keys@.take(i + 1)), snapshot@);
            assert(f.drop_last() =~= row_fields(
                delta_ms,
                time_ms,
                texts(keys@.take(i as int)),
                snapshot@,
            ));
            assert(f.last() == field_of(snapshot@, keys@[i as int]@));
        }
        i = i + 1;
    }
    assert(keys@.take(keys@.len() as int) =~= keys@);
    s.append("\n");
    s
}

/// Every row has exactly as many fields as the header it is written
/// under, whichever names the row's snapshot holds.
pub proof fn row_width_matches_header(
    delta_ms: u64,
    time_ms: u64,
    keys: Seq<Seq<char>>,
    snap: Map<Seq<char>, Seq<char>>,
)
    ensures
        row_fields(delta_ms, time_ms, keys, snap).len() == header_fields(keys).len(),
        header_fields(keys).len() == keys.len() + 2,
{
}

} // verus!
