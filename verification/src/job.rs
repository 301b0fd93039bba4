//! What is derived for one table: the layer name and everything named after
//! it, the filter query, the export command and the upload request.

use vstd::prelude::*;
use vstd::string::*;

use crate::archive::{
    all_named, archive_image, outcome_view, packing_of, packs, relative_names_of, stored_files,
    walk_view, zip_dir, ArchiveError, CompressionMethod, WalkedEntry,
};
use crate::config::{texts, OsmConn, OsmConnView, TableEntry};
use crate::text::{lowercase, to_lowercase};

verus! {

/// The layer name that goes with an already lowercased country code.
pub open spec fn layer_name_of(lowered: Seq<char>) -> Seq<char> {
    lowered + "_trs_roads_osm"@
}

/// The layer name of a country code.
pub open spec fn layer_name_for(iso3_code: Seq<char>) -> Seq<char> {
    layer_name_of(lowercase(iso3_code))
}

/// The name of the archive that holds a layer.
pub open spec fn archive_name(layer_name: Seq<char>) -> Seq<char> {
    layer_name + ".zip"@
}

/// The query that selects the rows of one country from a table. Table name
/// and code are inserted as they stand.
pub open spec fn filter_query_of(
    schema: Seq<char>,
    table_name: Seq<char>,
    iso3_code: Seq<char>,
) -> Seq<char> {
    "SELECT * FROM "@ + schema + "."@ + table_name + " WHERE iso3 = '"@ + iso3_code + "'"@
}

/// The arguments of the conversion tool.
pub open spec fn export_arguments(
    layer_name: Seq<char>,
    connection: Seq<char>,
    query: Seq<char>,
) -> Seq<Seq<char>> {
    seq!["-f"@, "ESRI Shapefile"@, layer_name, connection, "-sql"@, query, "-nln"@, layer_name]
}

/// Appends the layer suffix to a lowercased country code.
pub fn layer_name_from_lowered(lowered: &str) -> (layer_name: String)
    ensures
        layer_name@ == layer_name_of(lowered@),
{
    let mut layer_name = String::from_str(lowered);
    layer_name.append("_trs_roads_osm");
    layer_name
}

/// The layer name of a country code: the code in lowercase, then the suffix.
pub fn layer_name(iso3_code: &str) -> (layer_name: String)
    ensures
        layer_name@ == layer_name_for(iso3_code@),
{
    let lowered = to_lowercase(iso3_code);
    layer_name_from_lowered(lowered.as_str())
}

/// One table's export, as derived from its configuration entry.
#[derive(Debug, PartialEq, Eq)]
pub struct TableJob {
    pub table_name: String,
    /// The first of the configured country codes.
    pub iso3_code: String,
    pub layer_name: String,
    /// The directory that the export fills.
    pub output_dir: String,
    /// The file that the archive is written to.
    pub archive_path: String,
}

pub struct TableJobView {
    pub table_name: Seq<char>,
    pub iso3_code: Seq<char>,
    pub layer_name: Seq<char>,
    pub output_dir: Seq<char>,
    pub archive_path: Seq<char>,
}

impl View for TableJob {
    type V = TableJobView;

    open spec fn view(&self) -> TableJobView {
        TableJobView {
            table_name: self.table_name@,
            iso3_code: self.iso3_code@,
            layer_name: self.layer_name@,
            output_dir: self.output_dir@,
            archive_path: self.archive_path@,
        }
    }
}

/// The job for a table and a country code.
pub open spec fn job_for(table_name: Seq<char>, iso3_code: Seq<char>) -> TableJobView {
    TableJobView {
        table_name,
        iso3_code,
        layer_name: layer_name_for(iso3_code),
        output_dir: layer_name_for(iso3_code),
        archive_path: archive_name(layer_name_for(iso3_code)),
    }
}

/// The conversion tool and its arguments.
#[derive(Debug, PartialEq, Eq)]
pub struct ExportCommand {
    pub program: String,
    pub args: Vec<String>,
}

pub struct ExportCommandView {
    pub program: Seq<char>,
    pub args: Seq<Seq<char>>,
}

impl View for ExportCommand {
    type V = ExportCommandView;

    open spec fn view(&self) -> ExportCommandView {
        ExportCommandView { program: self.program@, args: texts(self.args@) }
    }
}

/// The export command of a job.
pub open spec fn export_command_of(job: TableJobView, connection: OsmConnView) -> ExportCommandView {
    ExportCommandView {
        program: "ogr2ogr"@,
        args: export_arguments(
            job.layer_name,
            connection.conn,
            filter_query_of(connection.schema, job.table_name, job.iso3_code),
        ),
    }
}

/// Where an archive goes: bucket, region, the key to store it under, and the
/// local file to send.
#[derive(Debug, PartialEq, Eq)]
pub struct UploadRequest {
    pub bucket: String,
    pub region: String,
    pub key: String,
    pub archive_path: String,
}

pub struct UploadRequestView {
    pub bucket: Seq<char>,
    pub region: Seq<char>,
    pub key: Seq<char>,
    pub archive_path: Seq<char>,
}

impl View for UploadRequest {
    type V = UploadRequestView;

    open spec fn view(&self) -> UploadRequestView {
        UploadRequestView {
            bucket: self.bucket@,
            region: self.region@,
            key: self.key@,
            archive_path: self.archive_path@,
        }
    }
}

/// The upload request of a job.
pub open spec fn upload_of(job: TableJobView) -> UploadRequestView {
    UploadRequestView {
        bucket: "osm-roads-dumps"@,
        region: "eu-west-2"@,
        key: job.layer_name,
        archive_path: job.archive_path,
    }
}

impl TableJob {
    /// The job for `table_name` and `iso3_code`.
    pub fn new(table_name: &str, iso3_code: &str) -> (job: TableJob)
        ensures
            job@ == job_for(table_name@, iso3_code@),
    {
        let layer = layer_name(iso3_code);
        let mut archive_path = layer.clone();
        archive_path.append(".zip");
        TableJob {
            table_name: String::from_str(table_name),
            iso3_code: String::from_str(iso3_code),
            output_dir: layer.clone(),
            layer_name: layer,
            archive_path,
        }
    }

    /// The job for a configured table. Only the first of its country codes is
    /// used; a table without codes has no job.
    pub fn for_entry(entry: &TableEntry) -> (job: Option<TableJob>)
        ensures
            match job {
                Some(job) => entry.codes@.len() > 0 && job@ == job_for(
                    entry.name@,
                    entry.codes@[0]@,
                ),
                None => entry.codes@.len() == 0,
            },
    {
        if entry.codes.len() == 0 {
            None
        } else {
            Some(TableJob::new(entry.name.as_str(), entry.codes[0].as_str()))
        }
    }

    /// The query that selects this job's rows.
    pub fn filter_query(&self, schema: &str) -> (query: String)
        ensures
            query@ == filter_query_of(schema@, self.table_name@, self.iso3_code@),
    {
        let mut query = String::from_str("SELECT * FROM ");
        query.append(schema);
        query.append(".");
        query.append(self.table_name.as_str());
        query.append(" WHERE iso3 = '");
        query.append(self.iso3_code.as_str());
        query.append("'");
        query
    }

    /// The command that exports this job's rows into the output directory.
    pub fn export_command(&self, connection: &OsmConn) -> (command: ExportCommand)
        ensures
            command@ == export_command_of(self@, connection@),
    {
        let mut args: Vec<String> = Vec::new();
        args.push(String::from_str("-f"));
        args.push(String::from_str("ESRI Shapefile"));
        args.push(self.layer_name.clone());
        args.push(connection.conn.clone());
        args.push(String::from_str("-sql"));
        args.push(self.filter_query(connection.schema.as_str()));
        args.push(String::from_str("-nln"));
        args.push(self.layer_name.clone());
        let command = ExportCommand { program: String::from_str("ogr2ogr"), args };
        assert(command@.args =~= export_command_of(self@, connection@).args);
        command
    }

    /// Packs what the export wrote into the bytes of this job's archive:
    /// the regular files of the walked output directory, each under its path
    /// relative to that directory, stored without compression. Where every
    /// entry lies under the output directory, an archive is returned exactly
    /// if the writer takes every file and closes the archive.
    pub fn pack(&self, entries: &Vec<WalkedEntry>) -> (result: Result<Vec<u8>, ArchiveError>)
        ensures
            outcome_view(result) == packing_of(
                walk_view(entries@),
                relative_names_of(walk_view(entries@), self.output_dir@),
                CompressionMethod::Stored,
            ),
            all_named(
                relative_names_of(walk_view(entries@), self.output_dir@),
                entries@.len() as int,
            ) ==> (result is Ok <==> packs(
                stored_files(
                    walk_view(entries@),
                    relative_names_of(walk_view(entries@), self.output_dir@),
                    CompressionMethod::Stored,
                ),
            )),
            result matches Ok(bytes) ==> archive_image(
                stored_files(
                    walk_view(entries@),
                    relative_names_of(walk_view(entries@), self.output_dir@),
                    CompressionMethod::Stored,
                ),
            ) == Some(bytes@),
    {
        zip_dir(entries, self.output_dir.as_str(), CompressionMethod::Stored)
    }

    /// Where this job's archive is uploaded.
    pub fn upload_request(&self) -> (request: UploadRequest)
        ensures
            request@ == upload_of(self@),
    {
        UploadRequest {
            bucket: String::from_str("osm-roads-dumps"),
            region: String::from_str("eu-west-2"),
            key: self.layer_name.clone(),
            archive_path: self.archive_path.clone(),
        }
    }
}

/// Every name derived for a table is its layer name: the lowercased country
/// code followed by `_trs_roads_osm`. The export writes the layer under that
/// name (third and last argument), into a directory of that name; the archive
/// is that name with `.zip`; the upload key is that name.
pub proof fn lemma_layer_name_is_shared(
    table_name: Seq<char>,
    iso3_code: Seq<char>,
    connection: OsmConnView,
)
    ensures
        ({
            let job = job_for(table_name, iso3_code);
            let layer = lowercase(iso3_code) + "_trs_roads_osm"@;
            &&& job.layer_name == layer
            &&& job.output_dir == layer
            &&& job.archive_path == layer + ".zip"@
            &&& export_command_of(job, connection).args.len() == 8
            &&& export_command_of(job, connection).args[2] == layer
            &&& export_command_of(job, connection).args[7] == layer
            &&& upload_of(job).key == layer
            &&& upload_of(job).archive_path == layer + ".zip"@
        }),
{
}

} // verus!
