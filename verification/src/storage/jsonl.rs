//! The metadata log: one JSON object per line, the line number of a record
//! being its identifier.

use crate::json::{
    count_of, json_count, json_document, json_literal, json_member, json_text, member,
    read_document, text_of, write_literal,
};
use vstd::prelude::*;
use vstd::string::*;

verus! {

/// Review metadata as the log stores it.
#[derive(Debug, Clone, PartialEq, Eq)]
pub struct ReviewMetadata {
    pub review_title: String,
    pub review_body: String,
    pub product_id: String,
    pub review_rating: u8,
}

/// The mathematical content of a [`ReviewMetadata`].
pub struct RecordView {
    pub review_title: Seq<char>,
    pub review_body: Seq<char>,
    pub product_id: Seq<char>,
    pub review_rating: u8,
}

impl View for ReviewMetadata {
    type V = RecordView;

    open spec fn view(&self) -> RecordView {
        RecordView {
            review_title: self.review_title@,
            review_body: self.review_body@,
            product_id: self.product_id@,
            review_rating: self.review_rating,
        }
    }
}

/// Why an operation on the log failed.
#[derive(Debug, PartialEq, Eq, Structural)]
pub enum StorageError {
    /// No record has this identifier.
    NotFound(usize),
    /// The line with this identifier is not a record.
    Malformed(usize),
    /// The JSON library refused to write a text. It refuses none, so no
    /// operation of the log ends with this.
    Encoding,
}

/// The decimal digit for a value below ten.
pub open spec fn digit_char(d: nat) -> char {
    if d == 0 {
        '0'
    } else if d == 1 {
        '1'
    } else if d == 2 {
        '2'
    } else if d == 3 {
        '3'
    } else if d == 4 {
        '4'
    } else if d == 5 {
        '5'
    } else if d == 6 {
        '6'
    } else if d == 7 {
        '7'
    } else if d == 8 {
        '8'
    } else {
        '9'
    }
}

/// A natural number in decimal, without sign or leading zeros.
pub open spec fn decimal_text(n: nat) -> Seq<char>
    decreases n,
{
    if n < 10 {
        seq![digit_char(n)]
    } else {
        decimal_text(n / 10).push(digit_char(n % 10))
    }
}

/// The line of a record whose three texts are already JSON literals: the
/// members in their fixed order, no white space, no line end.
pub open spec fn record_line(
    title: Seq<char>,
    body: Seq<char>,
    product: Seq<char>,
    rating: u8,
) -> Seq<char> {
    "{\"review_title\":"@ + title + ",\"review_body\":"@ + body + ",\"product_id\":"@ + product
        + ",\"review_rating\":"@ + decimal_text(rating as nat) + "}"@
}

/// The line that stands for a record.
pub open spec fn encoded_record(record: RecordView) -> Seq<char> {
    record_line(
        json_literal(record.review_title),
        json_literal(record.review_body),
        json_literal(record.product_id),
        record.review_rating,
    )
}

/// A text member of a document: the member exists and is a JSON string.
pub open spec fn text_member(doc: serde_json::Value, key: Seq<char>) -> Option<Seq<char>> {
    match json_member(doc, key) {
        Some(m) => json_text(m),
        None => None,
    }
}

/// A small number member of a document: the member exists and is an integer
/// from 0 to 255.
pub open spec fn byte_member(doc: serde_json::Value, key: Seq<char>) -> Option<u8> {
    match json_member(doc, key) {
        Some(m) => match json_count(m) {
            Some(n) => if n <= 255 {
                Some(n as u8)
            } else {
                None
            },
            None => None,
        },
        None => None,
    }
}

/// The record that a parsed document holds, if it holds the four members
/// with their types.
pub open spec fn record_in(doc: serde_json::Value) -> Option<RecordView> {
    match (
        text_member(doc, "review_title"@),
        text_member(doc, "review_body"@),
        text_member(doc, "product_id"@),
        byte_member(doc, "review_rating"@),
    ) {
        (Some(title), Some(body), Some(product), Some(rating)) => Some(
            RecordView {
                review_title: title,
                review_body: body,
                product_id: product,
                review_rating: rating,
            },
        ),
        _ => None,
    }
}

/// The record that a line holds, if the line is one.
pub open spec fn decoded_record(line: Seq<char>) -> Option<RecordView> {
    match json_document(line) {
        Some(doc) => record_in(doc),
        None => None,
    }
}

fn digit_text(d: u8) -> (r: &'static str)
    requires
        d < 10,
    ensures
        r@ == seq![digit_char(d as nat)],
{
    proof {
        reveal_strlit("0");
        reveal_strlit("1");
        reveal_strlit("2");
        reveal_strlit("3");
        reveal_strlit("4");
        reveal_strlit("5");
        reveal_strlit("6");
        reveal_strlit("7");
        reveal_strlit("8");
        reveal_strlit("9");
    }
    let r = if d == 0 {
        "0"
    } else if d == 1 {
        "1"
    } else if d == 2 {
        "2"
    } else if d == 3 {
        "3"
    } else if d == 4 {
        "4"
    } else if d == 5 {
        "5"
    } else if d == 6 {
        "6"
    } else if d == 7 {
        "7"
    } else if d == 8 {
        "8"
    } else {
        "9"
    };
    assert(r@ =~= seq![digit_char(d as nat)]);
    r
}

/// Writes a rating in decimal.
pub fn decimal(n: u8) -> (r: String)
    ensures
        r@ == decimal_text(n as nat),
{
    let mut out = String::new();
    if n >= 100 {
        out.append(digit_text(n / 100));
    }
    if n >= 10 {
        out.append(digit_text((n / 10) % 10));
    }
    out.append(digit_text(n % 10));
    proof {
        reveal_with_fuel(decimal_text, 3);
        assert(out@ =~= decimal_text(n as nat));
    }
    out
}

/// Puts the line of a record together from the JSON literals of its three
/// texts and its rating.
pub fn assemble_line(title: &str, body: &str, product: &str, rating: u8) -> (line: String)
    ensures
        line@ == record_line(title@, body@, product@, rating),
{
    let mut line = String::new();
    line.append("{\"review_title\":");
    line.append(title);
    line.append(",\"review_body\":");
    line.append(body);
    line.append(",\"product_id\":");
    line.append(product);
    line.append(",\"review_rating\":");
    let digits = decimal(rating);
    line.append(digits.as_str());
    line.append("}");
    assert(line@ =~= record_line(title@, body@, product@, rating));
    line
}

impl ReviewMetadata {
    /// Writes the record as one line of the log, without the line end.
    /// Every record can be written.
    pub fn to_line(&self) -> (r: Result<String, StorageError>)
        ensures
            r matches Ok(line) && line@ == encoded_record(self@),
    {
        let title = match write_literal(self.review_title.as_str()) {
            Ok(t) => t,
            Err(_) => {
                return Err(StorageError::Encoding);
            },
        };
        let body = match write_literal(self.review_body.as_str()) {
            Ok(t) => t,
            Err(_) => {
                return Err(StorageError::Encoding);
            },
        };
        let product = match write_literal(self.product_id.as_str()) {
            Ok(t) => t,
            Err(_) => {
                return Err(StorageError::Encoding);
            },
        };
        Ok(assemble_line(title.as_str(), body.as_str(), product.as_str(), self.review_rating))
    }

    /// Reads the record out of a parsed document.
    fn from_document(doc: &serde_json::Value) -> (r: Option<ReviewMetadata>)
        ensures
            match r {
                Some(record) => record_in(*doc) == Some(record@),
                None => record_in(*doc) is None,
            },
    {
        let title = match member(doc, "review_title") {
            Some(m) => match text_of(m) {
                Some(t) => t.to_owned(),
                None => {
                    return None;
                },
            },
            None => {
                return None;
            },
        };
        let body = match member(doc, "review_body") {
            Some(m) => match text_of(m) {
                Some(t) => t.to_owned(),
                None => {
                    return None;
                },
            },
            None => {
                return None;
            },
        };
        let product = match member(doc, "product_id") {
            Some(m) => match text_of(m) {
                Some(t) => t.to_owned(),
                None => {
                    return None;
                },
            },
            None => {
                return None;
            },
        };
        let rating: u8 = match member(doc, "review_rating") {
            Some(m) => match count_of(m) {
                Some(n) => {
                    if n <= 255 {
                        n as u8
                    } else {
                        return None;
                    }
                },
                None => {
                    return None;
                },
            },
            None => {
                return None;
            },
        };
        Some(
            ReviewMetadata {
                review_title: title,
                review_body: body,
                product_id: product,
                review_rating: rating,
            },
        )
    }

    /// Reads the record that a line of the log holds.
    pub fn from_line(line: &str) -> (r: Option<ReviewMetadata>)
        ensures
            match r {
                Some(record) => decoded_record(line@) == Some(record@),
                None => decoded_record(line@) is None,
            },
    {
        match read_document(line) {
            Ok(doc) => ReviewMetadata::from_document(&doc),
            Err(_) => None,
        }
    }
}

/// The mathematical content of a [`JsonlStorage`]: whether the backing file
/// exists, and its lines in order.
pub struct LogView {
    pub present: bool,
    pub lines: Seq<Seq<char>>,
}

/// The identifiers of a request that name a record of a log with `count`
/// records, in the order of the request.
pub open spec fn in_range(ids: Seq<usize>, count: nat) -> Seq<usize> {
    ids.filter(|id: usize| (id as nat) < count)
}

/// Taking one more identifier of a request adds it to the identifiers in
/// range exactly when it names a record.
pub proof fn lemma_in_range_step(ids: Seq<usize>, count: nat, i: int)
    requires
        0 <= i < ids.len(),
    ensures
        in_range(ids.take(i + 1), count) == if (ids[i] as nat) < count {
            in_range(ids.take(i), count).push(ids[i])
        } else {
            in_range(ids.take(i), count)
        },
{
    reveal(Seq::filter);
    assert(ids.take(i + 1).drop_last() == ids.take(i));
    assert(ids.take(i + 1).last() == ids[i]);
}

/// The identifiers in range of a request are those of its first part
/// followed by those of the rest.
pub proof fn lemma_in_range_split(ids: Seq<usize>, count: nat, i: int)
    requires
        0 <= i <= ids.len(),
    ensures
        in_range(ids, count) == in_range(ids.take(i), count) + in_range(ids.skip(i), count),
{
    assert(ids == ids.take(i) + ids.skip(i));
    Seq::filter_distributes_over_add(ids.take(i), ids.skip(i), |id: usize| (id as nat) < count);
}

/// Batch tolerance: the identifiers in range are no more than those asked
/// for, each of them names a record, and each identifier asked for that
/// names a record is among them.
pub proof fn lemma_in_range_bound(ids: Seq<usize>, count: nat)
    ensures
        in_range(ids, count).len() <= ids.len(),
        forall|j: int|
            0 <= j < in_range(ids, count).len() ==> (#[trigger] in_range(ids, count)[j] as nat)
                < count,
        forall|i: int|
            0 <= i < ids.len() && (ids[i] as nat) < count ==> in_range(ids, count).contains(
                #[trigger] ids[i],
            ),
{
    let kept = |id: usize| (id as nat) < count;
    ids.lemma_filter_len(kept);
    assert forall|j: int| 0 <= j < in_range(ids, count).len() implies (#[trigger] in_range(
        ids,
        count,
    )[j] as nat) < count by {
        ids.lemma_filter_pred(kept, j);
    }
    assert forall|i: int| 0 <= i < ids.len() && (ids[i] as nat) < count implies in_range(
        ids,
        count,
    ).contains(#[trigger] ids[i]) by {
        ids.lemma_filter_contains(kept, i);
    }
}

/// A log without records passes over every identifier.
pub proof fn lemma_in_range_of_empty_log(ids: Seq<usize>)
    ensures
        in_range(ids, 0).len() == 0,
{
    if in_range(ids, 0).len() > 0 {
        ids.lemma_filter_pred(|id: usize| (id as nat) < 0, 0);
    }
}

/// Nothing is passed over exactly when every identifier asked for names a
/// record, and then the identifiers in range are those asked for.
pub proof fn lemma_in_range_keeps_all(ids: Seq<usize>, count: nat)
    ensures
        in_range(ids, count).len() == ids.len() <==> (forall|i: int|
            0 <= i < ids.len() ==> (#[trigger] ids[i] as nat) < count),
        in_range(ids, count).len() == ids.len() ==> in_range(ids, count) == ids,
    decreases ids.len(),
{
    reveal(Seq::filter);
    if ids.len() > 0 {
        let init = ids.drop_last();
        lemma_in_range_keeps_all(init, count);
        init.lemma_filter_len(|id: usize| (id as nat) < count);
        if (ids.last() as nat) < count {
            if in_range(init, count).len() == init.len() {
                assert(in_range(ids, count) =~= ids);
                assert forall|i: int| 0 <= i < ids.len() implies (#[trigger] ids[i] as nat)
                    < count by {
                    if i < init.len() {
                        assert(init[i] == ids[i]);
                    }
                }
            } else {
                let i = choose|i: int| 0 <= i < init.len() && !((#[trigger] init[i] as nat) < count);
                assert(ids[i] == init[i]);
            }
        } else {
            assert(!((ids[ids.len() - 1] as nat) < count));
        }
    }
}

/// Whether the first `upto` of the identifiers `kept` name lines that are
/// records.
pub open spec fn all_records(lines: Seq<Seq<char>>, kept: Seq<usize>, upto: int) -> bool {
    forall|k: int| 0 <= k < upto ==> (#[trigger] decoded_record(lines[kept[k] as int])) is Some
}

/// What appending a record does to a log: the record goes to the end as
/// its line, its identifier is the number of lines before, the earlier lines
/// stay, and the backing file exists afterwards.
pub open spec fn appended(pre: LogView, post: LogView, record: RecordView, vector_id: usize) -> bool {
    &&& vector_id == pre.lines.len()
    &&& post.present
    &&& post.lines == pre.lines.push(encoded_record(record))
    &&& post.lines.len() <= usize::MAX
}

/// What reading an identifier gives: `NotFound` where the identifier is not
/// below the number of lines, `Malformed` where its line is not a record,
/// and the record of its line otherwise.
pub open spec fn read_outcome(log: LogView, vector_id: usize) -> Result<RecordView, StorageError> {
    if vector_id >= log.lines.len() {
        Err(StorageError::NotFound(vector_id))
    } else {
        match decoded_record(log.lines[vector_id as int]) {
            Some(record) => Ok(record),
            None => Err(StorageError::Malformed(vector_id)),
        }
    }
}

/// A read fails with `NotFound` exactly when the identifier is not below
/// the number of records, and with no other identifier than the one asked
/// for.
pub proof fn lemma_not_found_beyond_the_end(log: LogView, vector_id: usize)
    ensures
        read_outcome(log, vector_id) == Err::<RecordView, StorageError>(
            StorageError::NotFound(vector_id),
        ) <==> vector_id >= log.lines.len(),
        forall|other: usize|
            read_outcome(log, vector_id) == Err::<RecordView, StorageError>(
                StorageError::NotFound(other),
            ) ==> other == vector_id,
{
}

/// After an append the new identifier reads what the line of the record
/// holds, and every earlier identifier reads what it read before.
pub proof fn lemma_read_after_append(
    pre: LogView,
    post: LogView,
    record: RecordView,
    vector_id: usize,
)
    requires
        appended(pre, post, record, vector_id),
    ensures
        post.lines[vector_id as int] == encoded_record(record),
        read_outcome(post, vector_id) == match decoded_record(encoded_record(record)) {
            Some(read) => Ok::<RecordView, StorageError>(read),
            None => Err::<RecordView, StorageError>(StorageError::Malformed(vector_id)),
        },
        forall|earlier: usize|
            earlier < vector_id ==> #[trigger] read_outcome(post, earlier) == read_outcome(
                pre,
                earlier,
            ),
{
}

/// The count and every read follow from the lines alone: no counter is
/// kept. So a log opened on the lines that another left behind counts and
/// reads as the other did.
pub proof fn lemma_reads_follow_lines(left: LogView, found: LogView, vector_id: usize)
    requires
        found.lines == left.lines,
    ensures
        found.lines.len() == left.lines.len(),
        read_outcome(found, vector_id) == read_outcome(left, vector_id),
        forall|ids: Seq<usize>| in_range(ids, found.lines.len()) == in_range(ids, left.lines.len()),
{
}

/// The metadata log, held as the lines of its backing file. The line number
/// of a record is the identifier of its vector in the index.
#[derive(Debug)]
pub struct JsonlStorage {
    path: String,
    present: bool,
    lines: Vec<String>,
}

impl View for JsonlStorage {
    type V = LogView;

    closed spec fn view(&self) -> LogView {
        LogView {
            present: self.present,
            lines: if self.present {
                self.lines.deep_view()
            } else {
                Seq::empty()
            },
        }
    }
}

impl JsonlStorage {
    /// The path of the backing file.
    pub closed spec fn spec_path(&self) -> Seq<char> {
        self.path@
    }

    /// A log whose backing file is not known to exist.
    pub fn new(path: &str) -> (storage: Self)
        ensures
            storage.spec_path() == path@,
            !storage@.present,
            storage@.lines.len() == 0,
    {
        JsonlStorage { path: path.to_owned(), present: false, lines: Vec::new() }
    }

    /// A log as found on disk: `None` where the backing file does not exist,
    /// else its lines in order.
    pub fn open(path: &str, lines: Option<Vec<String>>) -> (storage: Self)
        ensures
            storage.spec_path() == path@,
            storage@.present == lines is Some,
            match lines {
                Some(found) => storage@.lines == found.deep_view(),
                None => storage@.lines.len() == 0,
            },
    {
        match lines {
            Some(found) => JsonlStorage { path: path.to_owned(), present: true, lines: found },
            None => JsonlStorage::new(path),
        }
    }

    /// The path of the backing file.
    pub fn path(&self) -> (r: &str)
        ensures
            r@ == self.spec_path(),
    {
        self.path.as_str()
    }

    /// A log whose backing file does not exist has no lines.
    pub proof fn lemma_absent_is_empty(&self)
        ensures
            !self@.present ==> self@.lines.len() == 0,
    {
    }

    /// Whether the backing file exists. Where it does not, the log has no
    /// lines.
    pub fn is_present(&self) -> (r: bool)
        ensures
            r == self@.present,
            !r ==> self@.lines.len() == 0,
    {
        self.present
    }

    /// Whether an identifier names a record, that is, lies below the
    /// number of records.
    pub fn holds(&self, vector_id: usize) -> (r: bool)
        ensures
            r == (vector_id < self@.lines.len()),
    {
        vector_id < self.count_lines()
    }

    /// The line of a record as it stands in the file, without its line end.
    pub fn line(&self, vector_id: usize) -> (r: Option<&str>)
        ensures
            match r {
                Some(text) => vector_id < self@.lines.len() && text@ == self@.lines[vector_id as int],
                None => vector_id >= self@.lines.len(),
            },
    {
        if self.present && vector_id < self.lines.len() {
            Some(self.lines[vector_id].as_str())
        } else {
            None
        }
    }

    /// Makes sure that the backing file exists, and says whether it had to
    /// be created. The lines stay as they are, so a second call changes
    /// nothing.
    pub fn initialize(&mut self) -> (created: bool)
        ensures
            created == !old(self)@.present,
            final(self)@.present,
            final(self)@.lines == old(self)@.lines,
            final(self).spec_path() == old(self).spec_path(),
    {
        let created = !self.present;
        if created {
            self.lines.clear();
            self.present = true;
        }
        created
    }

    /// The number of records: none where the backing file does not exist.
    pub fn count_lines(&self) -> (count: usize)
        ensures
            count == self@.lines.len(),
            !self@.present ==> count == 0,
    {
        if self.present {
            self.lines.len()
        } else {
            0
        }
    }

    /// Appends one line and returns its identifier, which is the number of
    /// lines before the call. The earlier lines stay as they are, and the
    /// file comes to exist.
    pub fn append_line(&mut self, line: String) -> (vector_id: usize)
        ensures
            final(self).spec_path() == old(self).spec_path(),
            vector_id == old(self)@.lines.len(),
            final(self)@.present,
            final(self)@.lines == old(self)@.lines.push(line@),
            final(self)@.lines.len() <= usize::MAX,
    {
        let vector_id = self.count_lines();
        self.initialize();
        self.lines.push(line);
        assert(self@.lines =~= old(self)@.lines.push(line@));
        let total: usize = self.lines.len();
        assert(self@.lines.len() == total);
        vector_id
    }

    /// Appends a record as one line and returns its identifier, which is
    /// the number of records before the call. The earlier lines stay as they
    /// are, and the file comes to exist. Every record can be appended.
    pub fn append(&mut self, metadata: &ReviewMetadata) -> (r: Result<usize, StorageError>)
        ensures
            final(self).spec_path() == old(self).spec_path(),
            r matches Ok(vector_id) && appended(old(self)@, final(self)@, metadata@, vector_id),
    {
        match metadata.to_line() {
            Ok(line) => Ok(self.append_line(line)),
            Err(e) => Err(e),
        }
    }

    /// Reads the record with an identifier: `NotFound` exactly when the
    /// identifier is not below the number of records, which is none where
    /// the backing file does not exist, and `Malformed` exactly when the
    /// line is there and is not a record.
    pub fn read_by_id(&self, vector_id: usize) -> (r: Result<ReviewMetadata, StorageError>)
        ensures
            match r {
                Ok(record) => read_outcome(self@, vector_id) == Ok::<RecordView, StorageError>(
                    record@,
                ),
                Err(e) => read_outcome(self@, vector_id) == Err::<RecordView, StorageError>(e),
            },
    {
        if vector_id >= self.count_lines() {
            return Err(StorageError::NotFound(vector_id));
        }
        match ReviewMetadata::from_line(self.lines[vector_id].as_str()) {
            Some(record) => Ok(record),
            None => Err(StorageError::Malformed(vector_id)),
        }
    }

    /// Reads the records of the identifiers of a request that are in range,
    /// in the order of the request. An identifier beyond the last record is
    /// passed over, so the result may be shorter than the request; where the
    /// backing file does not exist every identifier is passed over. The
    /// first line asked for that is not a record fails the whole batch.
    pub fn read_batch(&self, vector_ids: &[usize]) -> (r: Result<
        Vec<ReviewMetadata>,
        StorageError,
    >)
        ensures
            ({
                let lines = self@.lines;
                let kept = in_range(vector_ids@, lines.len());
                match r {
                    Ok(records) => {
                        &&& records@.len() == kept.len()
                        &&& forall|j: int|
                            0 <= j < kept.len() ==> decoded_record(lines[kept[j] as int]) == Some(
                                (#[trigger] records@[j])@,
                            )
                    },
                    Err(e) => exists|j: int|
                        {
                            &&& 0 <= j < kept.len()
                            &&& e == StorageError::Malformed(#[trigger] kept[j])
                            &&& decoded_record(lines[kept[j] as int]) is None
                            &&& all_records(lines, kept, j)
                        },
                }
            }),
    {
        let ghost lines = self@.lines;
        let ghost count = lines.len();
        let total: usize = self.count_lines();
        let mut results: Vec<ReviewMetadata> = Vec::new();
        let mut i: usize = 0;
        while i < vector_ids.len()
            invariant
                total == count,
                lines == self@.lines,
                count == lines.len(),
                0 <= i <= vector_ids@.len(),
                results@.len() == in_range(vector_ids@.take(i as int), count).len(),
                forall|j: int|
                    0 <= j < results@.len() ==> decoded_record(
                        lines[in_range(vector_ids@.take(i as int), count)[j] as int],
                    ) == Some((#[trigger] results@[j])@),
            decreases vector_ids@.len() - i,
        {
            let id = vector_ids[i];
            let ghost before = in_range(vector_ids@.take(i as int), count);
            proof {
                lemma_in_range_step(vector_ids@, count, i as int);
            }
            if id < total {
                match ReviewMetadata::from_line(self.lines[id].as_str()) {
                    Some(record) => {
                        results.push(record);
                    },
                    None => {
                        proof {
                            let j = before.len() as int;
                            let kept = in_range(vector_ids@, count);
                            lemma_in_range_split(vector_ids@, count, i as int + 1);
                            assert(kept[j] == id);
                            assert forall|k: int| 0 <= k < j implies (#[trigger] decoded_record(
                                lines[kept[k] as int],
                            )) is Some by {
                                assert(kept[k] == before[k]);
                                assert(decoded_record(lines[before[k] as int]) == Some(
                                    results@[k]@,
                                ));
                            }
                        }
                        return Err(StorageError::Malformed(id));
                    },
                }
            }
            i = i + 1;
        }
        proof {
            assert(vector_ids@.take(i as int) == vector_ids@);
        }
        Ok(results)
    }

    /// Reads every record, ordered by identifier. Where the backing file
    /// does not exist there are none. The first line that is not a record
    /// fails the scan.
    pub fn read_all(&self) -> (r: Result<Vec<ReviewMetadata>, StorageError>)
        ensures
            match r {
                Ok(records) => {
                    &&& records@.len() == self@.lines.len()
                    &&& forall|j: int|
                        0 <= j < records@.len() ==> decoded_record(self@.lines[j]) == Some(
                            (#[trigger] records@[j])@,
                        )
                },
                Err(e) => exists|j: int|
                    {
                        &&& 0 <= j < self@.lines.len()
                        &&& e == StorageError::Malformed(j as usize)
                        &&& (#[trigger] decoded_record(self@.lines[j])) is None
                        &&& forall|k: int| 0 <= k < j ==> (#[trigger] decoded_record(self@.lines[k])) is Some
                    },
            },
    {
        let mut results: Vec<ReviewMetadata> = Vec::new();
        if !self.present {
            return Ok(results);
        }
        let ghost lines = self@.lines;
        let mut i: usize = 0;
        while i < self.lines.len()
            invariant
                self.present,
                lines == self@.lines,
                0 <= i <= self.lines@.len(),
                results@.len() == i,
                forall|j: int|
                    0 <= j < i ==> decoded_record(lines[j]) == Some((#[trigger] results@[j])@),
            decreases self.lines@.len() - i,
        {
            match ReviewMetadata::from_line(self.lines[i].as_str()) {
                Some(record) => {
                    results.push(record);
                },
                None => {
                    proof {
                        assert(decoded_record(lines[i as int]) is None);
                        assert forall|k: int| 0 <= k < i implies (#[trigger] decoded_record(
                            lines[k],
                        )) is Some by {
                            assert(decoded_record(lines[k]) == Some(results@[k]@));
                        }
                    }
                    return Err(StorageError::Malformed(i));
                },
            }
            i = i + 1;
        }
        Ok(results)
    }
}

} // verus!
