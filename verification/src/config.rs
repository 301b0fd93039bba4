//! The configuration: which tables to export, and how to reach the database.

use vstd::prelude::*;
use vstd::string::*;

use crate::document::{parse_document, parsed_document, Node};
use crate::text::{decimal, decimal_text};

verus! {

/// The six fields that a connection must give.
#[derive(Clone, Copy, Debug, PartialEq, Eq, Structural)]
pub enum ConnectionField {
    Host,
    User,
    Password,
    Name,
    Port,
    Schema,
}

impl ConnectionField {
    /// The key under which the field stands in the configuration.
    pub open spec fn key(self) -> Seq<char> {
        match self {
            ConnectionField::Host => "host"@,
            ConnectionField::User => "user"@,
            ConnectionField::Password => "password"@,
            ConnectionField::Name => "name"@,
            ConnectionField::Port => "port"@,
            ConnectionField::Schema => "schema"@,
        }
    }

    /// The key under which the field stands in the configuration.
    pub fn name(self) -> (name: &'static str)
        ensures
            name@ == self.key(),
    {
        match self {
            ConnectionField::Host => "host",
            ConnectionField::User => "user",
            ConnectionField::Password => "password",
            ConnectionField::Name => "name",
            ConnectionField::Port => "port",
            ConnectionField::Schema => "schema",
        }
    }
}

/// Why a configuration was refused.
#[derive(Clone, Copy, Debug, PartialEq, Eq, Structural)]
pub enum ConfigError {
    /// The text is not a TOML document.
    Syntax,
    /// The document has no `tables` member.
    TablesMissing,
    /// `tables` is not a table whose members are lists of strings.
    TablesMalformed,
    /// Two members of `tables` have the same name.
    TableRepeated,
    /// The document has no `connection` member.
    ConnectionMissing,
    /// A connection field is absent or of the wrong type; of several such
    /// fields, this is the first in the order host, user, password, name,
    /// port, schema.
    ConnectionField(ConnectionField),
}

/// The message that goes with an error.
pub open spec fn message_of(error: ConfigError) -> Seq<char> {
    match error {
        ConfigError::ConnectionField(field) => "Failed parsing database params "@ + field.key(),
        _ => "failed parsing config"@,
    }
}

impl ConfigError {
    /// A message for the operator; for a connection field it names the field.
    pub fn message(&self) -> (message: String)
        ensures
            message@ == message_of(*self),
    {
        match self {
            ConfigError::ConnectionField(field) => {
                let mut message = String::from_str("Failed parsing database params ");
                message.append(field.name());
                message
            },
            _ => String::from_str("failed parsing config"),
        }
    }
}

/// How to reach the database: the connection string handed to the conversion
/// tool, and the schema that qualifies table names.
#[derive(Debug, PartialEq, Eq)]
pub struct OsmConn {
    pub conn: String,
    pub schema: String,
}

pub struct OsmConnView {
    pub conn: Seq<char>,
    pub schema: Seq<char>,
}

impl View for OsmConn {
    type V = OsmConnView;

    open spec fn view(&self) -> OsmConnView {
        OsmConnView { conn: self.conn@, schema: self.schema@ }
    }
}

/// The text of a connection field: a string as it stands, and for the port
/// also an integer, in decimal. `None` where the field is absent or holds
/// anything else.
pub open spec fn field_text(connection: Node, field: ConnectionField) -> Option<Seq<char>> {
    match connection.spec_get(field.key()) {
        Some(Node::Text(text)) => Some(text@),
        Some(Node::Integer(number)) => if field == ConnectionField::Port {
            Some(decimal(number as int))
        } else {
            None
        },
        _ => None,
    }
}

/// The first field, in the order host, user, password, name, port, schema,
/// that `connection` does not give.
pub open spec fn first_unusable_field(connection: Node) -> Option<ConnectionField> {
    if field_text(connection, ConnectionField::Host) is None {
        Some(ConnectionField::Host)
    } else if field_text(connection, ConnectionField::User) is None {
        Some(ConnectionField::User)
    } else if field_text(connection, ConnectionField::Password) is None {
        Some(ConnectionField::Password)
    } else if field_text(connection, ConnectionField::Name) is None {
        Some(ConnectionField::Name)
    } else if field_text(connection, ConnectionField::Port) is None {
        Some(ConnectionField::Port)
    } else if field_text(connection, ConnectionField::Schema) is None {
        Some(ConnectionField::Schema)
    } else {
        None
    }
}

/// The connection string for the conversion tool.
pub open spec fn connection_string(
    name: Seq<char>,
    host: Seq<char>,
    port: Seq<char>,
    user: Seq<char>,
    password: Seq<char>,
) -> Seq<char> {
    "PG:dbname='"@ + name + "' host='"@ + host + "' port="@ + port + " user='"@ + user
        + "' password='"@ + password + "'"@
}

/// The connection that a `connection` member describes.
pub open spec fn connection_of(connection: Node) -> Result<OsmConnView, ConfigError> {
    match first_unusable_field(connection) {
        Some(field) => Err(ConfigError::ConnectionField(field)),
        None => Ok(
            OsmConnView {
                conn: connection_string(
                    field_text(connection, ConnectionField::Name).unwrap(),
                    field_text(connection, ConnectionField::Host).unwrap(),
                    field_text(connection, ConnectionField::Port).unwrap(),
                    field_text(connection, ConnectionField::User).unwrap(),
                    field_text(connection, ConnectionField::Password).unwrap(),
                ),
                schema: field_text(connection, ConnectionField::Schema).unwrap(),
            },
        ),
    }
}

fn field_value(connection: &Node, field: ConnectionField) -> (text: Option<String>)
    ensures
        match text {
            Some(t) => field_text(*connection, field) == Some(t@),
            None => field_text(*connection, field) is None,
        },
{
    let node = match connection.get(field.name()) {
        Some(node) => node,
        None => {
            return None;
        },
    };
    match node.as_str() {
        Some(text) => Some(String::from_str(text)),
        None => match (field, node.as_integer()) {
            (ConnectionField::Port, Some(number)) => Some(decimal_text(number)),
            _ => None,
        },
    }
}

impl OsmConn {
    /// Builds the connection from the six fields of `connection`, or names
    /// the first field that it does not give.
    pub fn from_node(connection: &Node) -> (built: Result<OsmConn, ConfigError>)
        ensures
            match built {
                Ok(conn) => connection_of(*connection) == Ok::<OsmConnView, ConfigError>(conn@),
                Err(error) => connection_of(*connection) == Err::<OsmConnView, ConfigError>(error),
            },
    {
        let host = match field_value(connection, ConnectionField::Host) {
            Some(text) => text,
            None => {
                return Err(ConfigError::ConnectionField(ConnectionField::Host));
            },
        };
        let user = match field_value(connection, ConnectionField::User) {
            Some(text) => text,
            None => {
                return Err(ConfigError::ConnectionField(ConnectionField::User));
            },
        };
        let password = match field_value(connection, ConnectionField::Password) {
            Some(text) => text,
            None => {
                return Err(ConfigError::ConnectionField(ConnectionField::Password));
            },
        };
        let name = match field_value(connection, ConnectionField::Name) {
            Some(text) => text,
            None => {
                return Err(ConfigError::ConnectionField(ConnectionField::Name));
            },
        };
        let port = match field_value(connection, ConnectionField::Port) {
            Some(text) => text,
            None => {
                return Err(ConfigError::ConnectionField(ConnectionField::Port));
            },
        };
        let schema = match field_value(connection, ConnectionField::Schema) {
            Some(text) => text,
            None => {
                return Err(ConfigError::ConnectionField(ConnectionField::Schema));
            },
        };
        let mut conn = String::from_str("PG:dbname='");
        conn.append(name.as_str());
        conn.append("' host='");
        conn.append(host.as_str());
        conn.append("' port=");
        conn.append(port.as_str());
        conn.append(" user='");
        conn.append(user.as_str());
        conn.append("' password='");
        conn.append(password.as_str());
        conn.append("'");
        Ok(OsmConn { conn, schema })
    }
}

/// One table to export, with the country codes configured for it.
#[derive(Debug, PartialEq, Eq)]
pub struct TableEntry {
    pub name: String,
    pub codes: Vec<String>,
}

pub struct TableEntryView {
    pub name: Seq<char>,
    pub codes: Seq<Seq<char>>,
}

/// The texts of a list of strings.
pub open spec fn texts(list: Seq<String>) -> Seq<Seq<char>> {
    Seq::new(list.len(), |i: int| list[i]@)
}

impl View for TableEntry {
    type V = TableEntryView;

    open spec fn view(&self) -> TableEntryView {
        TableEntryView { name: self.name@, codes: texts(self.codes@) }
    }
}

/// The views of a list of table entries.
pub open spec fn entry_views(tables: Seq<TableEntry>) -> Seq<TableEntryView> {
    Seq::new(tables.len(), |i: int| tables[i]@)
}

/// The configuration of one run.
#[derive(Debug, PartialEq, Eq)]
pub struct Config {
    /// The tables, in the order in which they are exported.
    pub tables: Vec<TableEntry>,
    pub connection: OsmConn,
}

pub struct ConfigView {
    pub tables: Seq<TableEntryView>,
    pub connection: OsmConnView,
}

impl View for Config {
    type V = ConfigView;

    open spec fn view(&self) -> ConfigView {
        ConfigView { tables: entry_views(self.tables@), connection: self.connection@ }
    }
}

/// No two tables have the same name.
pub open spec fn distinct_names(tables: Seq<TableEntryView>) -> bool {
    forall|i: int, j: int|
        0 <= i < j < tables.len() ==> (#[trigger] tables[i]).name != (#[trigger] tables[j]).name
}

/// The codes that a member of `tables` lists: `None` unless it is an array of
/// strings.
pub open spec fn codes_of(list: Node) -> Option<Seq<Seq<char>>> {
    match list {
        Node::Array(items) => if forall|i: int|
            0 <= i < items@.len() ==> (#[trigger] items@[i]).spec_as_str() is Some {
            Some(Seq::new(items@.len(), |i: int| items@[i].spec_as_str().unwrap()))
        } else {
            None
        },
        _ => None,
    }
}

/// The entries that a `tables` member describes, in its own order: `None`
/// unless it is a table whose members are arrays of strings.
pub open spec fn tables_of(tables: Node) -> Option<Seq<TableEntryView>> {
    match tables {
        Node::Table(entries) => if forall|i: int|
            0 <= i < entries@.len() ==> codes_of((#[trigger] entries@[i]).1) is Some {
            Some(
                Seq::new(
                    entries@.len(),
                    |i: int|
                        TableEntryView {
                            name: entries@[i].0@,
                            codes: codes_of(entries@[i].1).unwrap(),
                        },
                ),
            )
        } else {
            None
        },
        _ => None,
    }
}

/// The configuration that a document describes. `tables` is examined before
/// `connection`; members under other names are ignored.
pub open spec fn config_of(document: Node) -> Result<ConfigView, ConfigError> {
    match document.spec_get("tables"@) {
        None => Err(ConfigError::TablesMissing),
        Some(tables) => match tables_of(tables) {
            None => Err(ConfigError::TablesMalformed),
            Some(entries) => if !distinct_names(entries) {
                Err(ConfigError::TableRepeated)
            } else {
                match document.spec_get("connection"@) {
                    None => Err(ConfigError::ConnectionMissing),
                    Some(connection) => match connection_of(connection) {
                        Err(error) => Err(error),
                        Ok(conn) => Ok(ConfigView { tables: entries, connection: conn }),
                    },
                }
            },
        },
    }
}

/// The configuration that a text describes.
pub open spec fn config_of_text(text: Seq<char>) -> Result<ConfigView, ConfigError> {
    match parsed_document(text) {
        None => Err(ConfigError::Syntax),
        Some(document) => config_of(document),
    }
}

fn codes_from(list: &Node) -> (codes: Option<Vec<String>>)
    ensures
        match codes {
            Some(c) => codes_of(*list) == Some(texts(c@)),
            None => codes_of(*list) is None,
        },
{
    match list {
        Node::Array(items) => {
            let mut codes: Vec<String> = Vec::new();
            let mut i: usize = 0;
            while i < items.len()
                invariant
                    i <= items.len(),
                    *list == Node::Array(*items),
                    codes@.len() == i,
                    forall|j: int|
                        0 <= j < i ==> (#[trigger] items@[j]).spec_as_str() == Some(codes@[j]@),
                decreases items.len() - i,
            {
                match items[i].as_str() {
                    Some(code) => {
                        codes.push(String::from_str(code));
                    },
                    None => {
                        return None;
                    },
                }
                i += 1;
            }
            assert(texts(codes@) =~= Seq::new(
                items@.len(),
                |i: int| items@[i].spec_as_str().unwrap(),
            ));
            Some(codes)
        },
        _ => None,
    }
}

fn tables_from(tables: &Node) -> (entries: Option<Vec<TableEntry>>)
    ensures
        match entries {
            Some(e) => tables_of(*tables) == Some(entry_views(e@)),
            None => tables_of(*tables) is None,
        },
{
    match tables {
        Node::Table(members) => {
            let mut entries: Vec<TableEntry> = Vec::new();
            let mut i: usize = 0;
            while i < members.len()
                invariant
                    i <= members.len(),
                    *tables == Node::Table(*members),
                    entries@.len() == i,
                    forall|j: int|
                        0 <= j < i ==> {
                            &&& codes_of((#[trigger] members@[j]).1) == Some(entries@[j]@.codes)
                            &&& members@[j].0@ == entries@[j]@.name
                        },
                decreases members.len() - i,
            {
                match codes_from(&members[i].1) {
                    Some(codes) => {
                        entries.push(TableEntry { name: members[i].0.clone(), codes });
                    },
                    None => {
                        return None;
                    },
                }
                i += 1;
            }
            Some(entries)
        },
        _ => None,
    }
}

fn names_are_distinct(tables: &Vec<TableEntry>) -> (distinct: bool)
    ensures
        distinct == distinct_names(entry_views(tables@)),
{
    let ghost views = entry_views(tables@);
    let mut j: usize = 0;
    while j < tables.len()
        invariant
            j <= tables.len(),
            views == entry_views(tables@),
            forall|a: int, b: int|
                0 <= a < b < j ==> (#[trigger] views[a]).name != (#[trigger] views[b]).name,
        decreases tables.len() - j,
    {
        let mut i: usize = 0;
        while i < j
            invariant
                i <= j < tables.len(),
                views == entry_views(tables@),
                forall|a: int| 0 <= a < i ==> (#[trigger] views[a]).name != views[j as int].name,
            decreases j - i,
        {
            if tables[i].name.eq(&tables[j].name) {
                assert(views[i as int].name == views[j as int].name);
                return false;
            }
            i += 1;
        }
        j += 1;
    }
    true
}

impl Config {
    /// The name of the file that holds the configuration, looked for in the
    /// working directory.
    pub fn file_name() -> (name: &'static str)
        ensures
            name@ == "osm.toml"@,
    {
        "osm.toml"
    }

    /// What holds of every configuration that this crate builds: no table
    /// occurs twice.
    pub open spec fn wf(&self) -> bool {
        distinct_names(self@.tables)
    }

    /// Reads the configuration out of a parsed document.
    pub fn from_document(document: &Node) -> (read: Result<Config, ConfigError>)
        ensures
            match read {
                Ok(config) => config.wf() && config_of(*document) == Ok::<ConfigView, ConfigError>(
                    config@,
                ),
                Err(error) => config_of(*document) == Err::<ConfigView, ConfigError>(error),
            },
    {
        let tables = match document.get("tables") {
            Some(node) => match tables_from(node) {
                Some(entries) => entries,
                None => {
                    return Err(ConfigError::TablesMalformed);
                },
            },
            None => {
                return Err(ConfigError::TablesMissing);
            },
        };
        if !names_are_distinct(&tables) {
            return Err(ConfigError::TableRepeated);
        }
        let connection = match document.get("connection") {
            Some(node) => match OsmConn::from_node(node) {
                Ok(conn) => conn,
                Err(error) => {
                    return Err(error);
                },
            },
            None => {
                return Err(ConfigError::ConnectionMissing);
            },
        };
        Ok(Config { tables, connection })
    }

    /// Reads the configuration out of the text of a configuration file.
    pub fn parse(text: &str) -> (read: Result<Config, ConfigError>)
        ensures
            match read {
                Ok(config) => config.wf() && config_of_text(text@) == Ok::<ConfigView, ConfigError>(
                    config@,
                ),
                Err(error) => config_of_text(text@) == Err::<ConfigView, ConfigError>(error),
            },
    {
        match parse_document(text) {
            Some(document) => Config::from_document(&document),
            None => Err(ConfigError::Syntax),
        }
    }
}

/// A document whose connection lacks one of the six fields, or that has no
/// connection at all, describes no configuration.
pub proof fn lemma_missing_field_is_refused(document: Node, field: ConnectionField)
    requires
        match document.spec_get("connection"@) {
            Some(connection) => connection.spec_get(field.key()) is None,
            None => true,
        },
    ensures
        config_of(document) is Err,
{
}

} // verus!
