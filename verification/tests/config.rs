use osm_export::config::{Config, ConfigError, ConnectionField, OsmConn, TableEntry};
use osm_export::document::Node;

const FULL: &str = "[tables]\nroads = [\"KEN\", \"UGA\"]\nlines = [\"Tza\"]\n\n[connection]\nhost = \"db.example.org\"\nuser = \"osm\"\npassword = \"secret\"\nname = \"gis\"\nport = \"5432\"\nschema = \"public\"\n";

fn text(value: &str) -> Node {
    Node::Text(value.to_string())
}

fn member(key: &str, value: Node) -> (String, Node) {
    (key.to_string(), value)
}

fn full_connection() -> Vec<(String, Node)> {
    vec![
        member("host", text("h")),
        member("user", text("u")),
        member("password", text("p")),
        member("name", text("n")),
        member("port", text("1")),
        member("schema", text("s")),
    ]
}

fn connection_without(field: &str) -> Node {
    Node::Table(full_connection().into_iter().filter(|(key, _)| key != field).collect())
}

fn connection_with(field: &str, value: Node) -> Node {
    Node::Table(
        full_connection()
            .into_iter()
            .map(|(key, old)| if key == field { (key, value_copy(&value)) } else { (key, old) })
            .collect(),
    )
}

fn value_copy(value: &Node) -> Node {
    match value {
        Node::Text(t) => Node::Text(t.to_string()),
        Node::Integer(i) => Node::Integer(*i),
        Node::Boolean(b) => Node::Boolean(*b),
        Node::Float => Node::Float,
        Node::Datetime => Node::Datetime,
        Node::Array(items) => Node::Array(items.iter().map(value_copy).collect()),
        Node::Table(members) => {
            Node::Table(members.iter().map(|(k, v)| (k.to_string(), value_copy(v))).collect())
        }
    }
}

fn document(tables: Node, connection: Node) -> Node {
    Node::Table(vec![member("tables", tables), member("connection", connection)])
}

fn one_table() -> Node {
    Node::Table(vec![member("roads", Node::Array(vec![text("KEN")]))])
}

#[test]
fn parse_reads_tables_and_connection() {
    let config = Config::parse(FULL).unwrap();
    assert_eq!(
        config.tables,
        vec![
            TableEntry { name: "lines".to_string(), codes: vec!["Tza".to_string()] },
            TableEntry {
                name: "roads".to_string(),
                codes: vec!["KEN".to_string(), "UGA".to_string()],
            },
        ]
    );
    assert_eq!(
        config.connection.conn,
        "PG:dbname='gis' host='db.example.org' port=5432 user='osm' password='secret'"
    );
    assert_eq!(config.connection.schema, "public");
}

#[test]
fn parse_accepts_a_port_given_as_a_number() {
    let text = FULL.replace("port = \"5432\"", "port = 5432");
    let config = Config::parse(&text).unwrap();
    assert_eq!(
        config.connection.conn,
        "PG:dbname='gis' host='db.example.org' port=5432 user='osm' password='secret'"
    );
}

#[test]
fn parse_ignores_members_it_does_not_know() {
    let text = format!("title = \"nightly\"\n{}extra = true\n", FULL);
    let config = Config::parse(&text).unwrap();
    assert_eq!(config.tables.len(), 2);
    assert_eq!(config.connection.schema, "public");
}

#[test]
fn parse_keeps_an_empty_code_list() {
    let text = FULL.replace("lines = [\"Tza\"]", "lines = []");
    let config = Config::parse(&text).unwrap();
    assert_eq!(config.tables[0], TableEntry { name: "lines".to_string(), codes: vec![] });
}

#[test]
fn parse_refuses_text_that_is_not_toml() {
    assert_eq!(Config::parse("[tables\n"), Err(ConfigError::Syntax));
    assert_eq!(Config::parse("tables = "), Err(ConfigError::Syntax));
}

#[test]
fn parse_refuses_a_document_without_tables() {
    let text = FULL.replace("[tables]", "[layers]");
    assert_eq!(Config::parse(&text), Err(ConfigError::TablesMissing));
    assert_eq!(Config::parse(""), Err(ConfigError::TablesMissing));
}

#[test]
fn parse_refuses_malformed_tables() {
    assert_eq!(
        Config::parse(&FULL.replace("lines = [\"Tza\"]", "lines = \"Tza\"")),
        Err(ConfigError::TablesMalformed)
    );
    assert_eq!(
        Config::parse(&FULL.replace("lines = [\"Tza\"]", "lines = [1, 2]")),
        Err(ConfigError::TablesMalformed)
    );
    assert_eq!(
        Config::parse("tables = [\"KEN\"]\n[connection]\nhost = \"h\"\n"),
        Err(ConfigError::TablesMalformed)
    );
}

#[test]
fn parse_refuses_a_document_without_connection() {
    assert_eq!(
        Config::parse("[tables]\nroads = [\"KEN\"]\n"),
        Err(ConfigError::ConnectionMissing)
    );
}

#[test]
fn parse_names_the_missing_connection_field() {
    let fields = [
        ("host = \"db.example.org\"\n", ConnectionField::Host),
        ("user = \"osm\"\n", ConnectionField::User),
        ("password = \"secret\"\n", ConnectionField::Password),
        ("name = \"gis\"\n", ConnectionField::Name),
        ("port = \"5432\"\n", ConnectionField::Port),
        ("schema = \"public\"\n", ConnectionField::Schema),
    ];
    for (line, field) in fields {
        assert_eq!(
            Config::parse(&FULL.replace(line, "")),
            Err(ConfigError::ConnectionField(field))
        );
    }
}

#[test]
fn parse_names_the_mistyped_connection_field() {
    assert_eq!(
        Config::parse(&FULL.replace("host = \"db.example.org\"", "host = 7")),
        Err(ConfigError::ConnectionField(ConnectionField::Host))
    );
    assert_eq!(
        Config::parse(&FULL.replace("schema = \"public\"", "schema = true")),
        Err(ConfigError::ConnectionField(ConnectionField::Schema))
    );
    assert_eq!(
        Config::parse(&FULL.replace("port = \"5432\"", "port = 54.32")),
        Err(ConfigError::ConnectionField(ConnectionField::Port))
    );
    assert_eq!(
        Config::parse(&FULL.replace("port = \"5432\"", "port = [5432]")),
        Err(ConfigError::ConnectionField(ConnectionField::Port))
    );
}

#[test]
fn parse_names_the_first_of_several_unusable_fields() {
    let text = FULL.replace("user = \"osm\"\n", "").replace("schema = \"public\"\n", "");
    assert_eq!(Config::parse(&text), Err(ConfigError::ConnectionField(ConnectionField::User)));
    let text = FULL.replace("name = \"gis\"", "name = 1").replace("password = \"secret\"\n", "");
    assert_eq!(
        Config::parse(&text),
        Err(ConfigError::ConnectionField(ConnectionField::Password))
    );
}

#[test]
fn parse_examines_tables_before_connection() {
    let text = "[tables]\nroads = 1\n[connection]\nhost = 1\n";
    assert_eq!(Config::parse(text), Err(ConfigError::TablesMalformed));
}

#[test]
fn parse_refuses_a_connection_that_is_not_a_table() {
    assert_eq!(
        Config::parse("connection = \"PG:dbname=gis\"\n[tables]\nroads = [\"KEN\"]\n"),
        Err(ConfigError::ConnectionField(ConnectionField::Host))
    );
}

#[test]
fn from_document_reads_a_hand_built_document() {
    let config = Config::from_document(&document(one_table(), Node::Table(full_connection())));
    assert_eq!(
        config,
        Ok(Config {
            tables: vec![TableEntry { name: "roads".to_string(), codes: vec!["KEN".to_string()] }],
            connection: OsmConn {
                conn: "PG:dbname='n' host='h' port=1 user='u' password='p'".to_string(),
                schema: "s".to_string(),
            },
        })
    );
}

#[test]
fn from_document_keeps_the_order_of_the_tables() {
    let tables = Node::Table(vec![
        member("zebra", Node::Array(vec![text("KEN")])),
        member("alpha", Node::Array(vec![text("UGA")])),
        member("mid", Node::Array(vec![])),
    ]);
    let config = Config::from_document(&document(tables, Node::Table(full_connection()))).unwrap();
    let names: Vec<&str> = config.tables.iter().map(|entry| entry.name.as_str()).collect();
    assert_eq!(names, vec!["zebra", "alpha", "mid"]);
}

#[test]
fn from_document_refuses_a_repeated_table() {
    let tables = Node::Table(vec![
        member("roads", Node::Array(vec![text("KEN")])),
        member("lines", Node::Array(vec![text("UGA")])),
        member("roads", Node::Array(vec![text("TZA")])),
    ]);
    assert_eq!(
        Config::from_document(&document(tables, Node::Table(full_connection()))),
        Err(ConfigError::TableRepeated)
    );
}

#[test]
fn from_document_refuses_a_root_that_is_not_a_table() {
    assert_eq!(Config::from_document(&text("tables")), Err(ConfigError::TablesMissing));
    assert_eq!(Config::from_document(&Node::Array(vec![])), Err(ConfigError::TablesMissing));
}

#[test]
fn from_node_builds_the_connection_string() {
    let conn = OsmConn::from_node(&Node::Table(full_connection())).unwrap();
    assert_eq!(conn.conn, "PG:dbname='n' host='h' port=1 user='u' password='p'");
    assert_eq!(conn.schema, "s");
}

#[test]
fn from_node_inserts_values_as_they_stand() {
    let conn = OsmConn::from_node(&connection_with("password", text("it's"))).unwrap();
    assert_eq!(conn.conn, "PG:dbname='n' host='h' port=1 user='u' password='it's'");
    let conn = OsmConn::from_node(&connection_with("host", text(""))).unwrap();
    assert_eq!(conn.conn, "PG:dbname='n' host='' port=1 user='u' password='p'");
}

#[test]
fn from_node_renders_a_numeric_port_in_decimal() {
    let conn = OsmConn::from_node(&connection_with("port", Node::Integer(5432))).unwrap();
    assert_eq!(conn.conn, "PG:dbname='n' host='h' port=5432 user='u' password='p'");
    let conn = OsmConn::from_node(&connection_with("port", Node::Integer(-1))).unwrap();
    assert_eq!(conn.conn, "PG:dbname='n' host='h' port=-1 user='u' password='p'");
}

#[test]
fn from_node_takes_a_number_for_the_port_only() {
    let fields = [
        ("host", ConnectionField::Host),
        ("user", ConnectionField::User),
        ("password", ConnectionField::Password),
        ("name", ConnectionField::Name),
        ("schema", ConnectionField::Schema),
    ];
    for (key, field) in fields {
        assert_eq!(
            OsmConn::from_node(&connection_with(key, Node::Integer(1))),
            Err(ConfigError::ConnectionField(field))
        );
    }
}

#[test]
fn from_node_names_each_missing_field() {
    let fields = [
        ("host", ConnectionField::Host),
        ("user", ConnectionField::User),
        ("password", ConnectionField::Password),
        ("name", ConnectionField::Name),
        ("port", ConnectionField::Port),
        ("schema", ConnectionField::Schema),
    ];
    for (key, field) in fields {
        assert_eq!(
            OsmConn::from_node(&connection_without(key)),
            Err(ConfigError::ConnectionField(field))
        );
    }
}

#[test]
fn from_node_of_an_empty_table_names_the_host() {
    assert_eq!(
        OsmConn::from_node(&Node::Table(vec![])),
        Err(ConfigError::ConnectionField(ConnectionField::Host))
    );
}

#[test]
fn field_names_are_the_configuration_keys() {
    assert_eq!(ConnectionField::Host.name(), "host");
    assert_eq!(ConnectionField::User.name(), "user");
    assert_eq!(ConnectionField::Password.name(), "password");
    assert_eq!(ConnectionField::Name.name(), "name");
    assert_eq!(ConnectionField::Port.name(), "port");
    assert_eq!(ConnectionField::Schema.name(), "schema");
}

#[test]
fn message_names_the_offending_field() {
    assert_eq!(
        ConfigError::ConnectionField(ConnectionField::Port).message(),
        "Failed parsing database params port"
    );
    assert_eq!(
        ConfigError::ConnectionField(ConnectionField::Host).message(),
        "Failed parsing database params host"
    );
}

#[test]
fn message_of_the_other_errors_is_the_same() {
    let errors = [
        ConfigError::Syntax,
        ConfigError::TablesMissing,
        ConfigError::TablesMalformed,
        ConfigError::TableRepeated,
        ConfigError::ConnectionMissing,
    ];
    for error in errors {
        assert_eq!(error.message(), "failed parsing config");
    }
}

#[test]
fn file_name_is_the_well_known_one() {
    assert_eq!(Config::file_name(), "osm.toml");
}
