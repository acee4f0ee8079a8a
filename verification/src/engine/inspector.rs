//! Defines a trait that allows custom strategy logging and telemetry.
//!
//! The logger keeps records in memory and renders them to CSV or JSON
//! text; writing that text to disk is the surrounding application's job,
//! so a save produces a [`SavePlan`] naming the file and its content.
use vstd::prelude::*;

verus! {

/// Trait allowing custom behavior to be defined for logging and
/// inspecting values.
pub trait Inspector<V> {
    /// Log a value to state.
    fn log(&mut self, value: V);

    /// Inspect a value at a given time step.
    fn inspect(&self, step: usize) -> Option<V>;

    /// Render the inspector state for saving.
    fn save(&self, save_type: Option<SaveData>) -> Option<SavePlan>;
}

/// Where and how inspector state should be saved.
pub enum SaveData {
    /// Append rows to an existing CSV file.
    ToCsv(String),
    /// Write a fresh CSV file with a header.
    ToNewCsv(String),
    /// Merge into an existing JSON file.
    ToJson(String),
    /// Write a fresh JSON file.
    ToNewJson(String),
}

/// A rendered save: the file to touch, the text to place there, and
/// whether the text extends an existing file.
pub struct SavePlan {
    /// Path of the file.
    pub path: String,
    /// The rendered text.
    pub content: String,
    /// Whether the text is an extension of an existing file rather than
    /// its full replacement.
    pub append: bool,
}

/// One CSV record of a log message: the three fields, quoted as the CSV
/// rules demand, ending in a record terminator.
pub uninterp spec fn csv_row_of(id: int, name: Seq<char>, data: Seq<char>) -> Seq<char>;

/// One JSON object of a log message with its three fields.
pub uninterp spec fn json_row_of(id: int, name: Seq<char>, data: Seq<char>) -> Seq<char>;

/// A single log record.
#[derive(Debug)]
pub struct LogMessage {
    id: usize,
    name: String,
    data: String,
}

impl Clone for LogMessage {
    /// An equal copy of the record.
    fn clone(&self) -> (r: LogMessage)
        ensures
            r.id_spec() == self.id_spec(),
            r.name_spec() == self.name_spec(),
            r.data_spec() == self.data_spec(),
    {
        LogMessage { id: self.id, name: self.name.clone(), data: self.data.clone() }
    }
}

impl LogMessage {
    /// Position tag of the record.
    pub closed spec fn id_spec(&self) -> int {
        self.id as int
    }

    /// Name of the record.
    pub closed spec fn name_spec(&self) -> Seq<char> {
        self.name@
    }

    /// Stored data of the record.
    pub closed spec fn data_spec(&self) -> Seq<char> {
        self.data@
    }

    /// Public constructor function for a new [`LogMessage`].
    pub fn new(name: String, data: String) -> (m: LogMessage)
        ensures
            m.id_spec() == 0,
            m.name_spec() == name@,
            m.data_spec() == data@,
    {
        LogMessage { id: 0, name, data }
    }

    /// Position tag of the record.
    pub fn id(&self) -> (r: usize)
        ensures
            r as int == self.id_spec(),
    {
        self.id
    }

    /// Name of the record.
    pub fn name(&self) -> (r: &String)
        ensures
            r@ == self.name_spec(),
    {
        &self.name
    }

    /// Stored data of the record.
    pub fn data(&self) -> (r: &String)
        ensures
            r@ == self.data_spec(),
    {
        &self.data
    }

    /// Set the record's position tag.
    pub fn update_counter(&mut self, counter: usize)
        ensures
            final(self).id_spec() == counter as int,
            final(self).name_spec() == old(self).name_spec(),
            final(self).data_spec() == old(self).data_spec(),
    {
        self.id = counter;
    }

    /// The record's CSV row.
    fn csv_row(&self) -> (r: String)
        ensures
            r@ == csv_row_of(self.id_spec(), self.name_spec(), self.data_spec()),
    {
        csv_record(self.id as u64, self.name.as_str(), self.data.as_str())
    }

    /// The record's JSON object.
    fn json_row(&self) -> (r: String)
        ensures
            r@ == json_row_of(self.id_spec(), self.name_spec(), self.data_spec()),
    {
        json_record(self.id as u64, self.name.as_str(), self.data.as_str())
    }
}

/// The CSV header line of a log.
pub open spec fn csv_header() -> Seq<char> {
    "id,name,data\n"@
}

/// The CSV rows of a sequence of records, in order.
pub open spec fn csv_content(vals: Seq<LogMessage>) -> Seq<char>
    decreases vals.len(),
{
    if vals.len() == 0 {
        Seq::<char>::empty()
    } else {
        csv_content(vals.drop_last()) + csv_row_of(
            vals.last().id_spec(),
            vals.last().name_spec(),
            vals.last().data_spec(),
        )
    }
}

/// The comma-separated JSON objects of a sequence of records, in order.
pub open spec fn json_items(vals: Seq<LogMessage>) -> Seq<char>
    decreases vals.len(),
{
    if vals.len() == 0 {
        Seq::<char>::empty()
    } else if vals.len() == 1 {
        json_row_of(vals[0].id_spec(), vals[0].name_spec(), vals[0].data_spec())
    } else {
        json_items(vals.drop_last()) + ","@ + json_row_of(
            vals.last().id_spec(),
            vals.last().name_spec(),
            vals.last().data_spec(),
        )
    }
}

/// The JSON array of a sequence of records.
pub open spec fn json_content(vals: Seq<LogMessage>) -> Seq<char> {
    "["@ + json_items(vals) + "]"@
}

/// An in-memory log of messages with position tags.
#[derive(Debug)]
pub struct Logger {
    /// Stores all the messages.
    pub values: Vec<LogMessage>,
    /// Used for keeping position of the id tag.
    pub counter: usize,
}

impl Logger {
    /// Public constructor function for a new, empty [`Logger`].
    pub fn new() -> (l: Logger)
        ensures
            l.values@ =~= Seq::<LogMessage>::empty(),
            l.counter == 0,
    {
        Logger { values: Vec::new(), counter: 0 }
    }

    /// The CSV rows of every stored message, in order.
    pub fn csv_rows(&self) -> (s: String)
        ensures
            s@ == csv_content(self.values@),
    {
        let mut out: String = String::new();
        let n: usize = self.values.len();
        let mut i: usize = 0;
        while i < n
            invariant
                0 <= i <= n,
                n == self.values@.len(),
                out@ == csv_content(self.values@.subrange(0, i as int)),
            decreases n - i,
        {
            let row: String = self.values[i].csv_row();
            proof {
                assert(self.values@.subrange(0, i as int + 1).drop_last() =~= self
                    .values@.subrange(0, i as int));
                assert(self.values@.subrange(0, i as int + 1).last() == self.values@[i as int]);
            }
            out.append(row.as_str());
            i = i + 1;
        }
        proof {
            assert(self.values@.subrange(0, n as int) =~= self.values@);
        }
        out
    }

    /// The JSON array of every stored message, in order.
    pub fn json_array(&self) -> (s: String)
        ensures
            s@ == json_content(self.values@),
    {
        let mut items: String = String::new();
        let n: usize = self.values.len();
        let mut i: usize = 0;
        while i < n
            invariant
                0 <= i <= n,
                n == self.values@.len(),
                items@ == json_items(self.values@.subrange(0, i as int)),
            decreases n - i,
        {
            let row: String = self.values[i].json_row();
            proof {
                assert(self.values@.subrange(0, i as int + 1).drop_last() =~= self
                    .values@.subrange(0, i as int));
                assert(self.values@.subrange(0, i as int + 1).last() == self.values@[i as int]);
            }
            if i > 0 {
                items.append(",");
            }
            items.append(row.as_str());
            i = i + 1;
        }
        proof {
            assert(self.values@.subrange(0, n as int) =~= self.values@);
        }
        let mut out: String = String::from_str("[");
        out.append(items.as_str());
        out.append("]");
        out
    }

    /// Render the log for saving, per the chosen format.
    pub fn save_plan(&self, save_type: Option<SaveData>) -> (r: Option<SavePlan>)
        ensures
            match save_type {
                None => r is None,
                Some(SaveData::ToCsv(p)) => r matches Some(plan) && plan.path@ == p@
                    && plan.content@ == csv_content(self.values@) && plan.append,
                Some(SaveData::ToNewCsv(p)) => r matches Some(plan) && plan.path@ == p@
                    && plan.content@ == csv_header() + csv_content(self.values@) && !plan.append,
                Some(SaveData::ToJson(p)) => r matches Some(plan) && plan.path@ == p@
                    && plan.content@ == json_content(self.values@) && plan.append,
                Some(SaveData::ToNewJson(p)) => r matches Some(plan) && plan.path@ == p@
                    && plan.content@ == json_content(self.values@) && !plan.append,
            },
    {
        match save_type {
            None => None,
            Some(SaveData::ToCsv(path)) => Some(
                SavePlan { path, content: self.csv_rows(), append: true },
            ),
            Some(SaveData::ToNewCsv(path)) => {
                let mut content: String = String::from_str("id,name,data\n");
                content.append(self.csv_rows().as_str());
                Some(SavePlan { path, content, append: false })
            },
            Some(SaveData::ToJson(path)) => Some(
                SavePlan { path, content: self.json_array(), append: true },
            ),
            Some(SaveData::ToNewJson(path)) => Some(
                SavePlan { path, content: self.json_array(), append: false },
            ),
        }
    }
}

impl Inspector<LogMessage> for Logger {
    /// Tag the value with the next position and store it. The counter
    /// advances by one per message until it saturates at the top of its
    /// range.
    fn log(&mut self, value: LogMessage)
        ensures
            final(self).values@.len() == old(self).values@.len() + 1,
            final(self).values@.subrange(0, old(self).values@.len() as int) == old(self).values@,
            final(self).values@.last().id_spec() == old(self).counter as int,
            final(self).values@.last().name_spec() == value.name_spec(),
            final(self).values@.last().data_spec() == value.data_spec(),
            final(self).counter as int == if old(self).counter < usize::MAX {
                old(self).counter + 1
            } else {
                old(self).counter as int
            },
    {
        let mut value = value;
        value.update_counter(self.counter);
        if self.counter < usize::MAX {
            self.counter = self.counter + 1;
        }
        self.values.push(value);
        proof {
            assert(self.values@.subrange(0, old(self).values@.len() as int) =~= old(
                self,
            ).values@);
        }
    }

    /// The stored value at a step: a copy of the record logged at that
    /// position, or nothing past the end.
    fn inspect(&self, step: usize) -> (r: Option<LogMessage>)
        ensures
            r matches Some(m) ==> step < self.values@.len() && m.id_spec()
                == self.values@[step as int].id_spec() && m.name_spec()
                == self.values@[step as int].name_spec() && m.data_spec()
                == self.values@[step as int].data_spec(),
            r is None ==> step >= self.values@.len(),
    {
        if step < self.values.len() {
            Some(self.values[step].clone())
        } else {
            None
        }
    }

    /// Render the log for saving, exactly as [`Logger::save_plan`] states.
    fn save(&self, save_type: Option<SaveData>) -> (r: Option<SavePlan>)
        ensures
            match save_type {
                None => r is None,
                Some(SaveData::ToCsv(p)) => r matches Some(plan) && plan.path@ == p@
                    && plan.content@ == csv_content(self.values@) && plan.append,
                Some(SaveData::ToNewCsv(p)) => r matches Some(plan) && plan.path@ == p@
                    && plan.content@ == csv_header() + csv_content(self.values@) && !plan.append,
                Some(SaveData::ToJson(p)) => r matches Some(plan) && plan.path@ == p@
                    && plan.content@ == json_content(self.values@) && plan.append,
                Some(SaveData::ToNewJson(p)) => r matches Some(plan) && plan.path@ == p@
                    && plan.content@ == json_content(self.values@) && !plan.append,
            },
    {
        self.save_plan(save_type)
    }
}

/// No-op implementation of an [`Inspector`] for custom usecases.
pub struct EmptyInspector;

impl Inspector<i128> for EmptyInspector {
    /// Discards the value.
    fn log(&mut self, _value: i128)
        ensures
            *final(self) == *old(self),
    {
    }

    /// Stores nothing, so reports nothing.
    fn inspect(&self, _step: usize) -> (r: Option<i128>)
        ensures
            r is None,
    {
        None
    }

    /// Renders nothing.
    fn save(&self, _save_type: Option<SaveData>) -> (r: Option<SavePlan>)
        ensures
            r is None,
    {
        None
    }
}

/// Relies on `csv::Writer`: renders one record of three fields into CSV
/// text — comma separated, quoted where the CSV rules demand it, ending
/// in a record terminator. The result depends on the fields alone.
#[verifier::external_body]
fn csv_record(id: u64, name: &str, data: &str) -> (r: String)
    ensures
        r@ == csv_row_of(id as int, name@, data@),
{
    let mut w = csv::WriterBuilder::new().has_headers(false).from_writer(Vec::new());
    let _ = w.write_record(&[format!("{}", id).as_str(), name, data]);
    let bytes: Vec<u8> = w.into_inner().unwrap_or_default();
    String::from_utf8(bytes).unwrap_or_default()
}

/// Relies on `serde_json::to_string`: renders one record as a JSON object
/// with fields `id`, `name` and `data`. The result depends on the fields
/// alone.
#[verifier::external_body]
fn json_record(id: u64, name: &str, data: &str) -> (r: String)
    ensures
        r@ == json_row_of(id as int, name@, data@),
{
    let mut m = serde_json::Map::new();
    m.insert("id".to_string(), serde_json::Value::from(id));
    m.insert("name".to_string(), serde_json::Value::from(name));
    m.insert("data".to_string(), serde_json::Value::from(data));
    serde_json::to_string(&serde_json::Value::Object(m)).unwrap_or_default()
}

} // verus!
