//! The decoded feature table and its mathematical model.
//!
//! Every executable type has a view made of sequences, integers and
//! booleans; the contracts of the other modules speak of the views only.

use vstd::prelude::*;

verus! {

/// Why a run stops without success.
#[derive(Clone, Copy, Debug, PartialEq, Eq, Structural)]
pub enum Failure {
    /// A configuration value is missing or unusable.
    ConfigError,
    /// The payload could not be fetched.
    FetchError,
    /// The payload is not a feature collection, or its rows do not line up
    /// with its columns.
    DecodeError,
    /// The collection holds no query result.
    NoQueryResult,
    /// No column is named by the address key.
    AddressColumnMissing,
    /// No row holds the wanted address.
    FeatureNotFound,
    /// A cell has no populated variant.
    MalformedValue,
    /// The snapshot could not be written.
    PersistenceError,
    /// The notification could not be composed or sent.
    NotifyError,
}

impl Failure {
    /// The message that goes with the failure.
    pub open spec fn message_text(self) -> Seq<char> {
        match self {
            Failure::ConfigError => "configuration value missing or invalid"@,
            Failure::FetchError => "payload could not be fetched"@,
            Failure::DecodeError => "payload could not be decoded"@,
            Failure::NoQueryResult => "no query result"@,
            Failure::AddressColumnMissing => "no CodeAddress found"@,
            Failure::FeatureNotFound => "no feature found for requested addr"@,
            Failure::MalformedValue => "value without a populated variant"@,
            Failure::PersistenceError => "snapshot could not be written"@,
            Failure::NotifyError => "notification could not be sent"@,
        }
    }

    /// The message that goes with the failure.
    pub fn message(&self) -> (text: &'static str)
        ensures
            text@ == self.message_text(),
    {
        match self {
            Failure::ConfigError => "configuration value missing or invalid",
            Failure::FetchError => "payload could not be fetched",
            Failure::DecodeError => "payload could not be decoded",
            Failure::NoQueryResult => "no query result",
            Failure::AddressColumnMissing => "no CodeAddress found",
            Failure::FeatureNotFound => "no feature found for requested addr",
            Failure::MalformedValue => "value without a populated variant",
            Failure::PersistenceError => "snapshot could not be written",
            Failure::NotifyError => "notification could not be sent",
        }
    }
}

/// A column descriptor: machine name and human alias.
#[derive(Clone, Debug, PartialEq, Eq)]
pub struct Field {
    pub name: String,
    pub alias: String,
}

/// The model of a [`Field`].
pub struct FieldView {
    pub name: Seq<char>,
    pub alias: Seq<char>,
}

impl View for Field {
    type V = FieldView;

    open spec fn view(&self) -> FieldView {
        FieldView { name: self.name@, alias: self.alias@ }
    }
}

impl Field {
    /// A field with the same name and alias.
    pub fn duplicate(&self) -> (copy: Field)
        ensures
            copy@ == self@,
    {
        Field { name: self.name.clone(), alias: self.alias.clone() }
    }
}

/// One cell of a row: a scalar of one of nine kinds, or nothing.
///
/// The two floating-point kinds carry the decimal text of their number, as
/// written where the payload was decoded.
#[derive(Clone, Debug, PartialEq, Eq)]
pub enum Value {
    Text(String),
    Float(String),
    Double(String),
    Sint(i32),
    Uint(u32),
    Int64(i64),
    Uint64(u64),
    Sint64(i64),
    Bool(bool),
    /// No variant is populated.
    Unset,
}

/// The model of a [`Value`].
pub enum ValueView {
    Text(Seq<char>),
    Float(Seq<char>),
    Double(Seq<char>),
    Sint(int),
    Uint(int),
    Int64(int),
    Uint64(int),
    Sint64(int),
    Bool(bool),
    Unset,
}

impl View for Value {
    type V = ValueView;

    open spec fn view(&self) -> ValueView {
        match *self {
            Value::Text(s) => ValueView::Text(s@),
            Value::Float(s) => ValueView::Float(s@),
            Value::Double(s) => ValueView::Double(s@),
            Value::Sint(n) => ValueView::Sint(n as int),
            Value::Uint(n) => ValueView::Uint(n as int),
            Value::Int64(n) => ValueView::Int64(n as int),
            Value::Uint64(n) => ValueView::Uint64(n as int),
            Value::Sint64(n) => ValueView::Sint64(n as int),
            Value::Bool(b) => ValueView::Bool(b),
            Value::Unset => ValueView::Unset,
        }
    }
}

/// One row: a cell per column, in column order.
#[derive(Clone, Debug, PartialEq, Eq)]
pub struct Feature {
    pub attributes: Vec<Value>,
}

impl View for Feature {
    type V = Seq<ValueView>;

    open spec fn view(&self) -> Seq<ValueView> {
        self.attributes@.map_values(|v: Value| v@)
    }
}

/// The model of a feature table: its columns and its rows.
pub struct TableView {
    pub fields: Seq<FieldView>,
    pub rows: Seq<Seq<ValueView>>,
}

impl TableView {
    /// Every row has one cell per column.
    pub open spec fn aligned(self) -> bool {
        forall|r: int| 0 <= r < self.rows.len() ==> (#[trigger] self.rows[r]).len() == self.fields.len()
    }
}

/// The feature table of a query: columns and rows.
#[derive(Clone, Debug, PartialEq, Eq)]
pub struct FeatureResult {
    pub fields: Vec<Field>,
    pub features: Vec<Feature>,
}

impl View for FeatureResult {
    type V = TableView;

    open spec fn view(&self) -> TableView {
        TableView {
            fields: self.fields@.map_values(|f: Field| f@),
            rows: self.features@.map_values(|r: Feature| r@),
        }
    }
}

impl FeatureResult {
    /// Whether every row has one cell per column.
    pub fn is_aligned(&self) -> (aligned: bool)
        ensures
            aligned == self@.aligned(),
    {
        let width = self.fields.len();
        let mut r: usize = 0;
        while r < self.features.len()
            invariant
                r <= self.features.len(),
                width == self.fields.len(),
                forall|k: int| 0 <= k < r ==> (#[trigger] self@.rows[k]).len() == width,
            decreases self.features.len() - r,
        {
            if self.features[r].attributes.len() != width {
                assert(self@.rows[r as int].len() != self@.fields.len());
                return false;
            }
            r = r + 1;
        }
        true
    }
}

/// The answer to a query; here always a feature table.
#[derive(Clone, Debug, PartialEq, Eq)]
pub struct QueryResult {
    pub feature_result: FeatureResult,
}

impl View for QueryResult {
    type V = TableView;

    open spec fn view(&self) -> TableView {
        self.feature_result@
    }
}

/// The decoded payload: a query result, or none.
#[derive(Clone, Debug, PartialEq, Eq)]
pub struct FeatureCollection {
    pub query_result: Option<QueryResult>,
}

impl View for FeatureCollection {
    type V = Option<TableView>;

    open spec fn view(&self) -> Option<TableView> {
        match self.query_result {
            Some(q) => Some(q@),
            None => None,
        }
    }
}

impl FeatureCollection {
    /// The table is aligned, where there is one.
    pub open spec fn well_formed(&self) -> bool {
        self@ matches Some(table) ==> table.aligned()
    }

    /// Whether the table is aligned, where there is one.
    pub fn is_well_formed(&self) -> (ok: bool)
        ensures
            ok == self.well_formed(),
    {
        match &self.query_result {
            Some(q) => q.feature_result.is_aligned(),
            None => true,
        }
    }
}

} // verus!
