use vstd::prelude::*;

verus! {

/// The first position at or after `from` that holds `stop`, if any.
pub open spec fn first_stop(data: Seq<u8>, from: int, stop: u8) -> Option<int>
    decreases data.len() - from,
{
    if from < 0 || from >= data.len() {
        None
    } else if data[from] == stop {
        Some(from)
    } else {
        first_stop(data, from + 1, stop)
    }
}

/// The bytes from `from` up to (not including) the next `stop`, and the
/// position of that `stop`; none when no `stop` follows.
pub open spec fn field(data: Seq<u8>, from: int, stop: u8) -> Option<(Seq<u8>, int)> {
    match first_stop(data, from, stop) {
        Some(end) => Some((data.subrange(from, end), end)),
        None => None,
    }
}

/// The `stop` found lies at or after `from` inside `data`, and no `stop` comes
/// before it; when none is found, none lies from `from` on.
pub proof fn lemma_first_stop(data: Seq<u8>, from: int, stop: u8)
    ensures
        first_stop(data, from, stop) matches Some(end) ==> {
            &&& 0 <= from <= end < data.len()
            &&& data[end] == stop
            &&& forall|j: int| from <= j < end ==> data[j] != stop
        },
        first_stop(data, from, stop) is None && 0 <= from ==> forall|j: int|
            from <= j < data.len() ==> data[j] != stop,
    decreases data.len() - from,
{
    if 0 <= from < data.len() && data[from] != stop {
        lemma_first_stop(data, from + 1, stop);
    }
}

/// Whether the bytes at `at` spell `pat`.
pub open spec fn window_is(data: Seq<u8>, at: int, pat: Seq<u8>) -> bool {
    0 <= at && at + pat.len() <= data.len() && data.subrange(at, at + pat.len()) == pat
}

/// Whether the bytes at `at` spell `pat`.
pub fn matches_at(data: &Vec<u8>, at: usize, pat: &[u8]) -> (r: bool)
    requires
        at + pat@.len() <= data@.len(),
    ensures
        r == window_is(data@, at as int, pat@),
{
    let n = pat.len();
    let len = data.len();
    let mut i: usize = 0;
    while i < n
        invariant
            i <= n,
            len == data@.len(),
            n == pat@.len(),
            at + n <= data@.len(),
            forall|j: int| 0 <= j < i ==> data@[at + j] == pat@[j],
        decreases n - i,
    {
        if data[at + i] != pat[i] {
            assert(data@.subrange(at as int, at + n)[i as int] != pat@[i as int]);
            return false;
        }
        i = i + 1;
    }
    assert(data@.subrange(at as int, at + n) =~= pat@);
    true
}

/// The bytes from `base + offset` up to the next `stop`, and the position of
/// that `stop`. None when no `stop` follows (the position may lie past the end
/// of `data`, or past `usize::MAX`).
pub fn read_field(data: &Vec<u8>, base: usize, offset: usize, stop: u8) -> (r: Option<
    (Vec<u8>, usize),
>)
    ensures
        match field(data@, base + offset, stop) {
            Some((bytes, end)) => r matches Some((v, e)) && v@ == bytes && e == end,
            None => r is None,
        },
{
    proof {
        lemma_first_stop(data@, base + offset, stop);
    }
    let n = data.len();
    let from = match base.checked_add(offset) {
        Some(f) => f,
        None => return None,
    };
    if from >= n {
        return None;
    }
    let mut out: Vec<u8> = Vec::new();
    assert(data@.subrange(from as int, from as int) =~= Seq::<u8>::empty());
    let mut i = from;
    while i < n && data[i] != stop
        invariant
            from <= i <= n,
            n == data@.len(),
            out@ == data@.subrange(from as int, i as int),
            forall|j: int| from <= j < i ==> data@[j] != stop,
            from == base + offset,
        decreases n - i,
    {
        out.push(data[i]);
        assert(data@.subrange(from as int, i + 1) =~= data@.subrange(from as int, i as int).push(
            data@[i as int],
        ));
        i = i + 1;
    }
    if i < n {
        Some((out, i))
    } else {
        None
    }
}

/// Reads fields one after another: the first starts `offs[0]` bytes after
/// `pos`, each next one `offs[k]` bytes after the `stop` that ended the one
/// before, and each runs up to the next `stop`. Gives the fields and the
/// position of the last `stop`; none when a field has no `stop` after it.
pub open spec fn field_chain(data: Seq<u8>, pos: int, offs: Seq<usize>, stop: u8) -> Option<
    (Seq<Seq<u8>>, int),
>
    decreases offs.len(),
{
    if offs.len() == 0 {
        Some((Seq::empty(), pos))
    } else {
        match field(data, pos + offs[0], stop) {
            None => None,
            Some((f, e)) => match field_chain(data, e, offs.drop_first(), stop) {
                None => None,
                Some((fs, end)) => Some((seq![f] + fs, end)),
            },
        }
    }
}

/// The contents of each byte list.
pub open spec fn byte_lists(v: Seq<Vec<u8>>) -> Seq<Seq<u8>> {
    v.map_values(|b: Vec<u8>| b@)
}

/// A chain of fields at positive offsets gives one field per offset and ends
/// past its start, inside `data`.
pub proof fn lemma_field_chain(data: Seq<u8>, pos: int, offs: Seq<usize>, stop: u8)
    requires
        forall|i: int| 0 <= i < offs.len() ==> offs[i] > 0,
    ensures
        field_chain(data, pos, offs, stop) matches Some((fs, end)) ==> {
            &&& fs.len() == offs.len()
            &&& offs.len() > 0 ==> pos < end < data.len()
            &&& offs.len() == 0 ==> end == pos
        },
    decreases offs.len(),
{
    if offs.len() > 0 {
        lemma_first_stop(data, pos + offs[0], stop);
        if let Some((f, e)) = field(data, pos + offs[0], stop) {
            lemma_field_chain(data, e, offs.drop_first(), stop);
        }
    }
}

fn read_chain_from(data: &Vec<u8>, pos: usize, offs: &[usize], k: usize, stop: u8) -> (r: Option<
    (Vec<Vec<u8>>, usize),
>)
    requires
        k <= offs@.len(),
    ensures
        match field_chain(data@, pos as int, offs@.skip(k as int), stop) {
            None => r is None,
            Some((fs, end)) => r matches Some((v, e)) && byte_lists(v@) == fs && e == end,
        },
    decreases offs@.len() - k,
{
    if k == offs.len() {
        let v: Vec<Vec<u8>> = Vec::new();
        assert(byte_lists(v@) =~= Seq::<Seq<u8>>::empty());
        return Some((v, pos));
    }
    assert(offs@.skip(k as int).drop_first() =~= offs@.skip(k + 1));
    proof {
        lemma_first_stop(data@, pos + offs@[k as int], stop);
    }
    match read_field(data, pos, offs[k], stop) {
        None => None,
        Some((f, e)) => match read_chain_from(data, e, offs, k + 1, stop) {
            None => None,
            Some((rest, end)) => {
                let mut v: Vec<Vec<u8>> = Vec::new();
                let ghost fb = f@;
                v.push(f);
                let mut rest = rest;
                let ghost rb = byte_lists(rest@);
                v.append(&mut rest);
                assert(byte_lists(v@) =~= seq![fb] + rb);
                Some((v, end))
            },
        },
    }
}

/// Reads the fields of `field_chain(data, pos, offs, stop)`.
pub fn read_chain(data: &Vec<u8>, pos: usize, offs: &[usize], stop: u8) -> (r: Option<
    (Vec<Vec<u8>>, usize),
>)
    requires
        forall|i: int| 0 <= i < offs@.len() ==> offs@[i] > 0,
    ensures
        match field_chain(data@, pos as int, offs@, stop) {
            None => r is None,
            Some((fs, end)) => r matches Some((v, e)) && byte_lists(v@) == fs && e == end && v@.len()
                == offs@.len() && (offs@.len() > 0 ==> pos < end < data@.len()),
        },
{
    assert(offs@.skip(0) =~= offs@);
    proof {
        lemma_field_chain(data@, pos as int, offs@, stop);
    }
    read_chain_from(data, pos, offs, 0, stop)
}

} // verus!
