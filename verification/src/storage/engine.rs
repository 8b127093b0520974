//! The flat-file engine: a table kept as a heap of rows of equal length.
//!
//! The file of a table starts with a magic number; the rows follow one after
//! the other. A deleted row stays where it is with its marker byte cleared,
//! until the file is reorganized.

use super::data::{chunks, clone_columns, lemma_chunk_bounds, lemma_chunks_push, Rows};
use super::meta::{
    bit_mask, field, field_offset, has_primary_key, lemma_field_in_row, null_at, null_slot,
    row_len, Table, LIVE, MAX_COLUMNS, TOMBSTONE,
};
use super::types::Column;
use super::{
    buried, condition_fault, is_live, matching, modified, not_matching, not_null, operand_of,
    patch_fault, patched, pk_index, rewritten, row_matches, stored, with_field, CompType, Engine,
    Error,
};
use vstd::prelude::*;
use vstd::slice::slice_subrange;

verus! {

/// The number of bytes of the magic number that starts the file of a table.
pub const HEADER_LEN: usize = 4;

/// The magic number that starts the file of a table.
pub open spec fn magic() -> Seq<u8> {
    seq![0x75u8, 0x53u8, 0x51u8, 0x4cu8]
}

/// A table kept in a flat file. The engine holds the rows of the file in
/// memory; [`FlatFile::open`] takes them from the bytes of a file and
/// [`FlatFile::to_bytes`] gives the bytes to write back.
pub struct FlatFile {
    table: Table,
    data: Vec<u8>,
    count: usize,
    created: bool,
    generation: u64,
}

impl FlatFile {
    /// The table whose rows the engine keeps.
    pub closed spec fn spec_table(&self) -> Table {
        self.table
    }

    /// Whether the file of the table exists.
    pub closed spec fn is_created(&self) -> bool {
        self.created
    }

    /// All rows in the file in their order, deleted ones included.
    pub closed spec fn records(&self) -> Seq<Seq<u8>> {
        chunks(self.data@, row_len(self.table.cols()), self.count as nat)
    }

    /// The bytes of all rows in the file, one after the other.
    pub closed spec fn bytes(&self) -> Seq<u8> {
        self.data@
    }

    /// How often the file has been reorganized since the engine was made. An
    /// identifier of a row holds as long as this number stays the same.
    pub closed spec fn spec_generation(&self) -> u64 {
        self.generation
    }

    /// The live rows of the table in the order of the file.
    pub open spec fn live_rows(&self) -> Seq<Seq<u8>> {
        self.records().filter(is_live())
    }

    /// What holds of every engine: its table is well formed, the bytes it
    /// holds are a whole number of rows, and without a file there are none.
    pub closed spec fn valid(&self) -> bool {
        &&& self.table.wf()
        &&& self.data@.len() == self.count * row_len(self.table.cols())
        &&& !self.created ==> self.count == 0
    }

    /// Every row in the file has the length that the columns give, and the
    /// rows are the bytes of the file cut to that length.
    pub proof fn lemma_records(&self)
        requires
            self.valid(),
        ensures
            self.spec_table().wf(),
            !self.is_created() ==> self.records().len() == 0,
            self.bytes().len() == self.records().len() * row_len(self.spec_table().cols()),
            self.records() == chunks(
                self.bytes(),
                row_len(self.spec_table().cols()),
                self.records().len(),
            ),
            forall|i: int|
                0 <= i < self.records().len() ==> (#[trigger] self.records()[i]).len() == row_len(
                    self.spec_table().cols(),
                ),
    {
        assert forall|i: int| 0 <= i < self.records().len() implies (
        #[trigger] self.records()[i]).len() == row_len(self.spec_table().cols()) by {
            lemma_chunk_bounds(i, self.count as int, row_len(self.table.cols()) as int);
        }
    }

    /// An engine for `table`, whose file does not exist yet.
    pub fn new(table: Table) -> (e: FlatFile)
        requires
            table.wf(),
        ensures
            e.valid(),
            e.spec_table() == table,
            !e.is_created(),
            e.records() == Seq::<Seq<u8>>::empty(),
            e.bytes() == Seq::<u8>::empty(),
            e.spec_generation() == 0,
    {
        let e = FlatFile { table, data: Vec::new(), count: 0, created: false, generation: 0 };
        assert(e.records() =~= Seq::<Seq<u8>>::empty());
        e
    }

    /// An engine for `table` on the bytes of its file. A file shorter than
    /// the magic number ends too early; another start than the magic number
    /// is the wrong one; and a file whose rows do not fill it to the last
    /// byte has the wrong length.
    pub fn open(table: Table, image: &[u8]) -> (r: Result<FlatFile, Error>)
        requires
            table.wf(),
        ensures
            match r {
                Ok(e) => image@.len() >= HEADER_LEN && image@.take(HEADER_LEN as int) == magic()
                    && e.valid() && e.spec_table() == table && e.is_created() && e.bytes()
                    == image@.skip(HEADER_LEN as int) && e.bytes().len() % row_len(table.cols())
                    == 0 && e.spec_generation() == 0,
                Err(Error::EndOfFile) => image@.len() < HEADER_LEN,
                Err(Error::WrongMagicNmbr) => image@.len() >= HEADER_LEN && image@.take(
                    HEADER_LEN as int,
                ) != magic(),
                Err(Error::WrongLength) => image@.len() >= HEADER_LEN && image@.take(
                    HEADER_LEN as int,
                ) == magic() && (image@.len() - HEADER_LEN) % (row_len(table.cols()) as int) != 0,
                Err(_) => false,
            },
    {
        if image.len() < HEADER_LEN {
            return Err(Error::EndOfFile);
        }
        if image[0] != 0x75 || image[1] != 0x53 || image[2] != 0x51 || image[3] != 0x4c {
            assert(image@.take(HEADER_LEN as int)[0] == image@[0]);
            assert(image@.take(HEADER_LEN as int)[1] == image@[1]);
            assert(image@.take(HEADER_LEN as int)[2] == image@[2]);
            assert(image@.take(HEADER_LEN as int)[3] == image@[3]);
            return Err(Error::WrongMagicNmbr);
        }
        assert(image@.take(HEADER_LEN as int) =~= magic());
        let width = table.row_size();
        let len = image.len() - HEADER_LEN;
        if len % width != 0 {
            return Err(Error::WrongLength);
        }
        let count = len / width;
        let data = vstd::slice::slice_to_vec(slice_subrange(image, HEADER_LEN, image.len()));
        proof {
            vstd::arithmetic::div_mod::lemma_fundamental_div_mod(len as int, width as int);
            assert(count * width == width * count) by (nonlinear_arith);
        }
        Ok(FlatFile { table, data, count, created: true, generation: 0 })
    }

    /// The bytes of the file of the table: the magic number, then the rows.
    pub fn to_bytes(&self) -> (image: Vec<u8>)
        ensures
            image@ == magic() + self.bytes(),
    {
        let mut image: Vec<u8> = Vec::new();
        image.push(0x75);
        image.push(0x53);
        image.push(0x51);
        image.push(0x4c);
        image.extend_from_slice(self.data.as_slice());
        assert(image@ =~= magic() + self.bytes());
        image
    }

    /// How often the file has been reorganized since the engine was made.
    pub fn generation(&self) -> (g: u64)
        ensures
            g == self.spec_generation(),
    {
        self.generation
    }

    /// The row with the identifier `id`, which was given out when the file
    /// had been reorganized `generation` times. After another reorganization
    /// the identifier holds no more and the state is invalid; an identifier
    /// that is not the place of a row in the file is out of bounds.
    pub fn row_by_id(&self, id: u64, generation: u64) -> (r: Result<&[u8], Error>)
        requires
            self.valid(),
        ensures
            match r {
                Ok(row) => generation == self.spec_generation() && id % (row_len(
                    self.spec_table().cols(),
                ) as u64) == 0 && id / (row_len(self.spec_table().cols()) as u64)
                    < self.records().len() && row@ == self.records()[(id / (row_len(
                    self.spec_table().cols(),
                ) as u64)) as int],
                Err(Error::InvalidState) => generation != self.spec_generation(),
                Err(Error::OutOfBounds) => generation == self.spec_generation() && !(id % (row_len(
                    self.spec_table().cols(),
                ) as u64) == 0 && id / (row_len(self.spec_table().cols()) as u64)
                    < self.records().len()),
                Err(_) => false,
            },
    {
        if generation != self.generation {
            return Err(Error::InvalidState);
        }
        let width = self.table.row_size() as u64;
        if id % width != 0 || id / width >= self.count as u64 {
            return Err(Error::OutOfBounds);
        }
        Ok(self.row((id / width) as usize))
    }

    /// Whether the file of the table exists.
    pub fn has_file(&self) -> (b: bool)
        ensures
            b == self.is_created(),
    {
        self.created
    }

    /// The number of rows in the file, deleted ones included.
    pub fn record_count(&self) -> (n: usize)
        ensures
            n == self.records().len(),
    {
        self.count
    }
}

/// The bytes that a condition compares with: the whole of the given value,
/// or, where a length comes with it, that many of its first bytes. A length
/// past the end of the value is out of bounds.
pub fn operand<'a>(value: (&'a [u8], Option<usize>)) -> (r: Result<&'a [u8], Error>)
    ensures
        match r {
            Ok(o) => o@ == operand_of(value) && !(value.1 is Some && value.1->Some_0
                > value.0@.len()),
            Err(Error::OutOfBounds) => value.1 is Some && value.1->Some_0 > value.0@.len(),
            Err(_) => false,
        },
{
    match value.1 {
        Some(n) => {
            if n > value.0.len() {
                Err(Error::OutOfBounds)
            } else {
                Ok(slice_subrange(value.0, 0, n))
            }
        },
        None => Ok(value.0),
    }
}

/// Appends `bytes` to `out`.
pub fn append(out: &mut Vec<u8>, bytes: &[u8])
    ensures
        final(out)@ == old(out)@ + bytes@,
{
    out.extend_from_slice(bytes);
    assert(out@ =~= old(out)@ + bytes@);
}

/// The first `i + 1` elements are the first `i` and then the one at `i`.
pub proof fn lemma_take_push<A>(s: Seq<A>, i: int)
    requires
        0 <= i < s.len(),
    ensures
        s.take(i + 1) == s.take(i).push(s[i]),
{
    assert(s.take(i + 1) =~= s.take(i).push(s[i]));
}

/// Filtering twice by one condition keeps what filtering once keeps.
pub proof fn lemma_filter_twice<A>(s: Seq<A>, pred: spec_fn(A) -> bool)
    ensures
        s.filter(pred).filter(pred) == s.filter(pred),
    decreases s.len(),
{
    reveal(Seq::filter);
    if s.len() > 0 {
        lemma_filter_twice(s.drop_last(), pred);
        s.drop_last().filter(pred).lemma_filter_push(s.last(), pred);
    }
}

/// Writing a field of the right width into a row leaves the length of the
/// row and its marker byte as they are.
pub proof fn lemma_with_field(cols: Seq<Column>, row: Seq<u8>, i: int, bytes: Seq<u8>)
    requires
        0 <= i < cols.len(),
        row.len() == row_len(cols),
        bytes.len() == cols[i].sql_type.width(),
    ensures
        with_field(cols, row, i, bytes).len() == row.len(),
        with_field(cols, row, i, bytes)[0] == row[0],
{
    lemma_field_in_row(cols, i);
}

/// Writing values that the table accepts into a row leaves the length of the
/// row and its marker byte as they are.
pub proof fn lemma_patched(cols: Seq<Column>, row: Seq<u8>, values: Seq<(usize, &[u8])>)
    requires
        row.len() == row_len(cols),
        patch_fault(cols, values) is None,
    ensures
        patched(cols, row, values).len() == row.len(),
        patched(cols, row, values)[0] == row[0],
    decreases values.len(),
{
    if values.len() > 0 {
        let init = values.drop_last();
        assert forall|k: int| 0 <= k < init.len() implies (#[trigger] init[k]).0 < cols.len()
            && init[k].1@.len() == cols[init[k].0 as int].sql_type.width() by {
            assert(init[k] == values[k]);
        }
        lemma_patched(cols, row, init);
        assert(values.last() == values[values.len() - 1]);
        lemma_with_field(
            cols,
            patched(cols, row, init),
            values.last().0 as int,
            values.last().1@,
        );
    }
}

/// Tests the values of a modification for why they cannot be written.
pub fn check_values(cols: &Vec<Column>, values: &[(usize, &[u8])]) -> (r: Result<(), Error>)
    ensures
        match r {
            Ok(()) => patch_fault(cols@, values@) is None,
            Err(e) => patch_fault(cols@, values@) == Some(e),
        },
{
    let mut k: usize = 0;
    while k < values.len()
        invariant
            k <= values@.len(),
            forall|j: int| 0 <= j < k ==> (#[trigger] values@[j]).0 < cols@.len(),
        decreases values@.len() - k,
    {
        if values[k].0 >= cols.len() {
            return Err(Error::InvalidColumn);
        }
        k = k + 1;
    }
    let mut k: usize = 0;
    while k < values.len()
        invariant
            k <= values@.len(),
            forall|j: int| 0 <= j < values@.len() ==> (#[trigger] values@[j]).0 < cols@.len(),
            forall|j: int|
                0 <= j < k ==> (#[trigger] values@[j]).1@.len() == cols@[values@[j].0 as int].sql_type.width(),
        decreases values@.len() - k,
    {
        if values[k].1.len() != cols[values[k].0].sql_type.size() {
            return Err(Error::WrongLength);
        }
        k = k + 1;
    }
    Ok(())
}

/// The row with the values written into it, one after the other.
pub fn patch_row(cols: &Vec<Column>, row: &[u8], values: &[(usize, &[u8])]) -> (r: Vec<u8>)
    requires
        cols@.len() <= MAX_COLUMNS,
        row@.len() == row_len(cols@),
        patch_fault(cols@, values@) is None,
    ensures
        r@ == patched(cols@, row@, values@),
        r@.len() == row@.len(),
        r@[0] == row@[0],
{
    let mut buf = vstd::slice::slice_to_vec(row);
    let mut k: usize = 0;
    assert(values@.take(0) =~= Seq::<(usize, &[u8])>::empty());
    proof {
        lemma_patched(cols@, row@, values@);
    }
    while k < values.len()
        invariant
            k <= values@.len(),
            cols@.len() <= MAX_COLUMNS,
            row@.len() == row_len(cols@),
            patch_fault(cols@, values@) is None,
            buf@ == patched(cols@, row@, values@.take(k as int)),
            buf@.len() == row@.len(),
        decreases values@.len() - k,
    {
        let (idx, bytes) = values[k];
        let ghost before = buf@;
        proof {
            assert(values@[k as int].0 < cols@.len());
            assert(values@[k as int].1@.len() == cols@[values@[k as int].0 as int].sql_type.width());
            lemma_field_in_row(cols@, idx as int);
            assert(values@.take(k + 1).drop_last() =~= values@.take(k as int));
            assert(values@.take(k + 1).last() == values@[k as int]);
        }
        if null_at(cols, buf.as_slice(), idx) {
            let slot = null_slot(cols, idx);
            let at = 1 + slot / 8;
            let mask = bit_mask(slot % 8);
            let byte = buf[at];
            assert(byte >= mask) by {
                assert((byte as int / mask as int) % 2 == 1);
                if byte < mask {
                    assert(byte as int / mask as int == 0) by (nonlinear_arith)
                        requires
                            0 <= byte < mask,
                    ;
                }
            }
            buf.set(at, byte - mask);
        }
        assert(buf@ == not_null(cols@, before, idx as int));
        let start = field_offset(cols, idx);
        let end = start + cols[idx].sql_type.size();
        let len = buf.len();
        let mut next: Vec<u8> = Vec::new();
        append(&mut next, slice_subrange(buf.as_slice(), 0, start));
        append(&mut next, bytes);
        append(&mut next, slice_subrange(buf.as_slice(), end, len));
        assert(next@ =~= with_field(cols@, before, idx as int, bytes@));
        buf = next;
        k = k + 1;
    }
    assert(values@.take(values@.len() as int) =~= values@);
    buf
}

impl FlatFile {
    /// Tests the condition on column `col` for why it cannot be decided, and
    /// gives the bytes to compare with.
    fn check<'a>(&self, col: usize, value: (&'a [u8], Option<usize>)) -> (r: Result<
        &'a [u8],
        Error,
    >)
        requires
            self.valid(),
        ensures
            match r {
                Ok(o) => condition_fault(self.table.cols(), col, value) is None && o@
                    == operand_of(value),
                Err(e) => condition_fault(self.table.cols(), col, value) == Some(e),
            },
    {
        let cols = self.table.columns();
        if col >= cols.len() {
            return Err(Error::InvalidColumn);
        }
        let o = match operand(value) {
            Ok(o) => o,
            Err(e) => {
                return Err(Error::OutOfBounds);
            },
        };
        let fits = match cols[col].sql_type {
            super::types::SqlType::Int => o.len() == 4,
            super::types::SqlType::Bool => o.len() == 1,
            super::types::SqlType::Char(_) => true,
        };
        if !fits {
            return Err(Error::WrongLength);
        }
        Ok(o)
    }

    /// Whether `row` is live and meets the condition.
    fn hit(&self, row: &[u8], col: usize, operand: &[u8], comp: CompType) -> (b: bool)
        requires
            self.valid(),
            col < self.table.cols().len(),
            self.table.cols()[col as int].sql_type.accepts(operand@),
            row@.len() == row_len(self.table.cols()),
        ensures
            b == (is_live()(row@) && row_matches(self.table.cols(), row@, col as int, operand@, comp)),
    {
        let cols = self.table.columns();
        row[0] == LIVE && !null_at(cols, row, col) && cols[col].sql_type.compare(
            field(cols, row, col),
            operand,
            comp,
        )
    }

    /// Row `i` of the file.
    fn row(&self, i: usize) -> (row: &[u8])
        requires
            self.valid(),
            i < self.records().len(),
        ensures
            row@ == self.records()[i as int],
            row@.len() == row_len(self.table.cols()),
            0 < row@.len() <= 0x101_0000,
    {
        let width = self.table.row_size();
        let total = self.data.len();
        proof {
            lemma_chunk_bounds(i as int, self.count as int, width as int);
            assert(i * width + width <= total);
        }
        slice_subrange(self.data.as_slice(), i * width, i * width + width)
    }

    /// The bytes of the live rows, one after the other, and their number.
    fn scan(&self) -> (found: (Vec<u8>, usize))
        requires
            self.valid(),
        ensures
            found.0@.len() == found.1 * row_len(self.table.cols()),
            chunks(found.0@, row_len(self.table.cols()), found.1 as nat) == self.live_rows(),
            found.1 <= self.records().len(),
    {
        let ghost width = row_len(self.table.cols());
        let ghost recs = self.records();
        let mut out: Vec<u8> = Vec::new();
        let mut n: usize = 0;
        let mut i: usize = 0;
        assert(recs.take(0) =~= Seq::<Seq<u8>>::empty());
        assert(chunks(out@, width, 0) =~= Seq::<Seq<u8>>::empty());
        reveal(Seq::filter);
        while i < self.count
            invariant
                self.valid(),
                recs == self.records(),
                width == row_len(self.table.cols()),
                i <= self.count == recs.len(),
                n <= i,
                out@.len() == n * width,
                chunks(out@, width, n as nat) == recs.take(i as int).filter(is_live()),
            decreases self.count - i,
        {
            let row = self.row(i);
            proof {
                lemma_take_push(recs, i as int);
                recs.take(i as int).lemma_filter_push(recs[i as int], is_live());
            }
            if row[0] == LIVE {
                proof {
                    lemma_chunks_push(out@, row@, width, n as nat);
                }
                append(&mut out, row);
                n = n + 1;
            }
            i = i + 1;
        }
        assert(recs.take(recs.len() as int) =~= recs);
        (out, n)
    }

    /// The bytes of the live rows that meet the condition, one after the
    /// other, and their number.
    fn find(&self, col: usize, operand: &[u8], comp: CompType) -> (found: (Vec<u8>, usize))
        requires
            self.valid(),
            col < self.table.cols().len(),
            self.table.cols()[col as int].sql_type.accepts(operand@),
        ensures
            found.0@.len() == found.1 * row_len(self.table.cols()),
            chunks(found.0@, row_len(self.table.cols()), found.1 as nat)
                == self.live_rows().filter(matching(self.table.cols(), col as int, operand@, comp)),
            found.1 == self.live_rows().filter(
                matching(self.table.cols(), col as int, operand@, comp),
            ).len(),
            found.1 <= self.records().len(),
    {
        let ghost width = row_len(self.table.cols());
        let ghost recs = self.records();
        let ghost wanted = matching(self.table.cols(), col as int, operand@, comp);
        let mut out: Vec<u8> = Vec::new();
        let mut n: usize = 0;
        let mut i: usize = 0;
        assert(recs.take(0) =~= Seq::<Seq<u8>>::empty());
        assert(chunks(out@, width, 0) =~= Seq::<Seq<u8>>::empty());
        reveal(Seq::filter);
        while i < self.count
            invariant
                self.valid(),
                recs == self.records(),
                width == row_len(self.table.cols()),
                wanted == matching(self.table.cols(), col as int, operand@, comp),
                col < self.table.cols().len(),
                self.table.cols()[col as int].sql_type.accepts(operand@),
                i <= self.count == recs.len(),
                n <= i,
                out@.len() == n * width,
                chunks(out@, width, n as nat) == recs.take(i as int).filter(is_live()).filter(
                    wanted,
                ),
            decreases self.count - i,
        {
            let row = self.row(i);
            proof {
                lemma_take_push(recs, i as int);
                recs.take(i as int).lemma_filter_push(recs[i as int], is_live());
                recs.take(i as int).filter(is_live()).lemma_filter_push(recs[i as int], wanted);
            }
            if self.hit(row, col, operand, comp) {
                proof {
                    lemma_chunks_push(out@, row@, width, n as nat);
                }
                append(&mut out, row);
                n = n + 1;
            }
            i = i + 1;
        }
        assert(recs.take(recs.len() as int) =~= recs);
        (out, n)
    }
}

impl Engine for FlatFile {
    open spec fn wf(&self) -> bool {
        self.valid()
    }

    open spec fn schema(&self) -> Seq<Column> {
        self.spec_table().cols()
    }

    open spec fn created(&self) -> bool {
        self.is_created()
    }

    open spec fn rows(&self) -> Seq<Seq<u8>> {
        self.live_rows()
    }

    open spec fn has_room(&self) -> bool {
        self.bytes().len() + row_len(self.spec_table().cols()) <= usize::MAX
    }

    fn create_table(&mut self) -> (r: Result<(), Error>)
        ensures
            final(self).spec_table() == old(self).spec_table(),
            final(self).spec_generation() == old(self).spec_generation(),
            final(self).bytes() == old(self).bytes(),
            final(self).records() == old(self).records(),
    {
        if self.created {
            return Err(Error::Engine);
        }
        self.created = true;
        assert(self.records() =~= Seq::<Seq<u8>>::empty());
        assert(self.records().filter(is_live()) =~= Seq::<Seq<u8>>::empty()) by {
            reveal(Seq::filter);
        }
        assert(self.data@.len() == 0) by (nonlinear_arith)
            requires
                self.data@.len() == self.count * row_len(self.table.cols()),
                self.count == 0,
        ;
        Ok(())
    }

    fn table(&self) -> (t: &Table)
        ensures
            *t == self.spec_table(),
    {
        &self.table
    }

    fn full_scan(&self) -> (r: Result<Rows, Error>) {
        if !self.created {
            return Err(Error::Engine);
        }
        let (data, n) = self.scan();
        Ok(Rows::from_parts(clone_columns(self.table.columns()), data, n))
    }

    fn lookup(&self, column_index: usize, value: (&[u8], Option<usize>), comp: CompType) -> (r:
        Result<Rows, Error>) {
        if !self.created {
            return Err(Error::Engine);
        }
        let operand = match self.check(column_index, value) {
            Ok(operand) => operand,
            Err(e) => {
                return Err(e);
            },
        };
        let (data, n) = self.find(column_index, operand, comp);
        Ok(Rows::from_parts(clone_columns(self.table.columns()), data, n))
    }

    /// The identifier of the inserted row is the place of its first byte
    /// among the rows of the file.
    fn insert_row(&mut self, row_data: &[u8]) -> (r: Result<u64, Error>)
        ensures
            final(self).spec_table() == old(self).spec_table(),
            final(self).spec_generation() == old(self).spec_generation(),
            r is Err ==> final(self).records() == old(self).records() && final(self).bytes()
                == old(self).bytes(),
            r is Ok ==> final(self).records() == old(self).records().push(stored(row_data@))
                && final(self).bytes() == old(self).bytes() + stored(row_data@) && r->Ok_0 == old(
                self,
            ).bytes().len(),
    {
        if !self.created {
            return Err(Error::Engine);
        }
        let pk = match self.table.primary_key() {
            Ok(pk) => pk,
            Err(_) => {
                return Err(Error::MissingPrimaryKey);
            },
        };
        let ghost cols = self.table.cols();
        assert(has_primary_key(cols) && pk == pk_index(cols));
        let width = self.table.row_size();
        if row_data.len() != width {
            return Err(Error::WrongLength);
        }
        let columns = self.table.columns();
        let key = columns[pk].sql_type.key_of(field(columns, row_data, pk));
        let (_, n) = self.find(pk, key, CompType::Equ);
        if n > 0 {
            return Err(Error::PrimaryKeyValueExists);
        }
        let len = self.data.len();
        if len > usize::MAX - width {
            return Err(Error::NoOperationPossible);
        }
        proof {
            lemma_chunks_push(self.data@, stored(row_data@), width as nat, self.count as nat);
            self.records().lemma_filter_push(stored(row_data@), is_live());
            assert(self.count < usize::MAX) by (nonlinear_arith)
                requires
                    self.count * width + width <= usize::MAX,
                    width >= 1,
            ;
        }
        self.data.push(LIVE);
        append(&mut self.data, slice_subrange(row_data, 1, width));
        self.count = self.count + 1;
        assert(self.data@ =~= old(self).data@ + stored(row_data@));
        Ok(len as u64)
    }

    /// A deleted row keeps its place in the file, with the marker of a
    /// deleted row.
    fn delete(&mut self, column_index: usize, value: (&[u8], Option<usize>), comp: CompType) -> (r:
        Result<u64, Error>)
        ensures
            final(self).spec_table() == old(self).spec_table(),
            final(self).spec_generation() == old(self).spec_generation(),
            r is Err ==> final(self).records() == old(self).records() && final(self).bytes()
                == old(self).bytes(),
            r is Ok ==> final(self).records() == old(self).records().map_values(
                buried(
                    old(self).spec_table().cols(),
                    column_index as int,
                    operand_of(value),
                    comp,
                ),
            ),
    {
        if !self.created {
            return Err(Error::Engine);
        }
        let operand = match self.check(column_index, value) {
            Ok(operand) => operand,
            Err(e) => {
                return Err(e);
            },
        };
        let (_, n) = self.find(column_index, operand, comp);
        let ghost width = row_len(self.table.cols());
        let ghost recs = self.records();
        let ghost left = not_matching(self.table.cols(), column_index as int, operand@, comp);
        let ghost bury = buried(self.table.cols(), column_index as int, operand@, comp);
        let mut out: Vec<u8> = Vec::new();
        let mut i: usize = 0;
        assert(recs.take(0) =~= Seq::<Seq<u8>>::empty());
        assert(chunks(out@, width, 0) =~= Seq::<Seq<u8>>::empty());
        assert(recs.take(0).map_values(bury) =~= Seq::<Seq<u8>>::empty());
        reveal(Seq::filter);
        while i < self.count
            invariant
                self.valid(),
                recs == self.records(),
                width == row_len(self.table.cols()),
                left == not_matching(self.table.cols(), column_index as int, operand@, comp),
                bury == buried(self.table.cols(), column_index as int, operand@, comp),
                chunks(out@, width, i as nat) == recs.take(i as int).map_values(bury),
                column_index < self.table.cols().len(),
                self.table.cols()[column_index as int].sql_type.accepts(operand@),
                i <= self.count == recs.len(),
                out@.len() == i * width,
                chunks(out@, width, i as nat).filter(is_live()) == recs.take(i as int).filter(
                    is_live(),
                ).filter(left),
            decreases self.count - i,
        {
            let row = self.row(i);
            let ghost kept = bury(row@);
            proof {
                lemma_take_push(recs, i as int);
                recs.take(i as int).lemma_filter_push(recs[i as int], is_live());
                recs.take(i as int).filter(is_live()).lemma_filter_push(recs[i as int], left);
                lemma_chunks_push(out@, kept, width, i as nat);
                chunks(out@, width, i as nat).lemma_filter_push(kept, is_live());
                assert(recs.take(i + 1).map_values(bury) =~= recs.take(i as int).map_values(
                    bury,
                ).push(kept));
            }
            let ghost before = out@;
            if self.hit(row, column_index, operand, comp) {
                out.push(TOMBSTONE);
                append(&mut out, slice_subrange(row, 1, row.len()));
            } else {
                append(&mut out, row);
            }
            assert(out@ =~= before + kept);
            i = i + 1;
        }
        assert(recs.take(recs.len() as int) =~= recs);
        self.data = out;
        Ok(n as u64)
    }

    /// A modified row keeps its place in the file.
    fn modify(
        &mut self,
        constraint_column_index: usize,
        constraint_value: (&[u8], Option<usize>),
        comp: CompType,
        values: &[(usize, &[u8])],
    ) -> (r: Result<u64, Error>)
        ensures
            final(self).spec_table() == old(self).spec_table(),
            final(self).spec_generation() == old(self).spec_generation(),
            r is Err ==> final(self).records() == old(self).records() && final(self).bytes()
                == old(self).bytes(),
            r is Ok ==> final(self).records() == old(self).records().map_values(
                rewritten(
                    old(self).spec_table().cols(),
                    constraint_column_index as int,
                    operand_of(constraint_value),
                    comp,
                    values@,
                ),
            ),
    {
        if !self.created {
            return Err(Error::Engine);
        }
        let operand = match self.check(constraint_column_index, constraint_value) {
            Ok(operand) => operand,
            Err(e) => {
                return Err(e);
            },
        };
        match check_values(self.table.columns(), values) {
            Ok(()) => {},
            Err(e) => {
                return Err(e);
            },
        }
        let (_, n) = self.find(constraint_column_index, operand, comp);
        let ghost width = row_len(self.table.cols());
        let ghost recs = self.records();
        let ghost change = modified(
            self.table.cols(),
            constraint_column_index as int,
            operand@,
            comp,
            values@,
        );
        let ghost rewrite = rewritten(
            self.table.cols(),
            constraint_column_index as int,
            operand@,
            comp,
            values@,
        );
        let mut out: Vec<u8> = Vec::new();
        let mut i: usize = 0;
        assert(recs.take(0) =~= Seq::<Seq<u8>>::empty());
        assert(chunks(out@, width, 0) =~= Seq::<Seq<u8>>::empty());
        reveal(Seq::filter);
        assert(recs.take(0).filter(is_live()).map_values(change) =~= Seq::<Seq<u8>>::empty());
        assert(recs.take(0).map_values(rewrite) =~= Seq::<Seq<u8>>::empty());
        while i < self.count
            invariant
                self.valid(),
                recs == self.records(),
                width == row_len(self.table.cols()),
                change == modified(
                    self.table.cols(),
                    constraint_column_index as int,
                    operand@,
                    comp,
                    values@,
                ),
                rewrite == rewritten(
                    self.table.cols(),
                    constraint_column_index as int,
                    operand@,
                    comp,
                    values@,
                ),
                chunks(out@, width, i as nat) == recs.take(i as int).map_values(rewrite),
                constraint_column_index < self.table.cols().len(),
                self.table.cols()[constraint_column_index as int].sql_type.accepts(operand@),
                patch_fault(self.table.cols(), values@) is None,
                i <= self.count == recs.len(),
                out@.len() == i * width,
                chunks(out@, width, i as nat).filter(is_live()) == recs.take(i as int).filter(
                    is_live(),
                ).map_values(change),
            decreases self.count - i,
        {
            let row = self.row(i);
            let ghost before = out@;
            let ghost live = recs.take(i as int).filter(is_live());
            if self.hit(row, constraint_column_index, operand, comp) {
                let new_row = patch_row(self.table.columns(), row, values);
                proof {
                    lemma_chunks_push(before, new_row@, width, i as nat);
                    chunks(before, width, i as nat).lemma_filter_push(new_row@, is_live());
                }
                append(&mut out, new_row.as_slice());
            } else {
                proof {
                    lemma_chunks_push(before, row@, width, i as nat);
                    chunks(before, width, i as nat).lemma_filter_push(row@, is_live());
                }
                append(&mut out, row);
            }
            proof {
                lemma_take_push(recs, i as int);
                recs.take(i as int).lemma_filter_push(recs[i as int], is_live());
                if is_live()(recs[i as int]) {
                    assert(live.push(recs[i as int]).map_values(change) =~= live.map_values(
                        change,
                    ).push(change(recs[i as int])));
                }
                assert(recs.take(i + 1).map_values(rewrite) =~= recs.take(i as int).map_values(
                    rewrite,
                ).push(rewrite(recs[i as int])));
            }
            i = i + 1;
        }
        assert(recs.take(recs.len() as int) =~= recs);
        self.data = out;
        Ok(n as u64)
    }

    /// After it the file holds the live rows and nothing else, and the
    /// identifiers given out before hold no more, unless the file has been
    /// reorganized as often as can be counted.
    fn reorganize(&mut self) -> (r: Result<(), Error>)
        ensures
            final(self).spec_table() == old(self).spec_table(),
            r is Ok && old(self).spec_generation() < u64::MAX ==> final(self).spec_generation()
                == old(self).spec_generation() + 1,
            r is Err || old(self).spec_generation() == u64::MAX ==> final(self).spec_generation()
                == old(self).spec_generation(),
            r is Ok ==> final(self).records() == old(self).live_rows(),
            r is Err ==> final(self).records() == old(self).records() && final(self).bytes()
                == old(self).bytes(),
    {
        if !self.created {
            return Err(Error::Engine);
        }
        let (data, n) = self.scan();
        proof {
            lemma_filter_twice(self.records(), is_live());
        }
        self.data = data;
        self.count = n;
        if self.generation < u64::MAX {
            self.generation = self.generation + 1;
        }
        Ok(())
    }

    fn reset(&mut self) -> (r: Result<(), Error>)
        ensures
            final(self).spec_table() == old(self).spec_table(),
            final(self).spec_generation() == old(self).spec_generation(),
            r is Ok ==> final(self).records() == Seq::<Seq<u8>>::empty() && final(self).bytes()
                == Seq::<u8>::empty(),
            r is Err ==> final(self).records() == old(self).records() && final(self).bytes()
                == old(self).bytes(),
    {
        if !self.created {
            return Err(Error::Engine);
        }
        self.data = Vec::new();
        self.count = 0;
        assert(self.records() =~= Seq::<Seq<u8>>::empty());
        assert(self.records().filter(is_live()) =~= Seq::<Seq<u8>>::empty()) by {
            reveal(Seq::filter);
        }
        Ok(())
    }
}

} // verus!
