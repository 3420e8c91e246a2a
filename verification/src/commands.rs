//! The dump commands: each export tool with the arguments it is run with.

use vstd::prelude::*;
use vstd::string::StringExecFns;
use crate::pipeline::EnvVar;
use crate::pipeline::OutputKind;
use crate::pipeline::Stage;
use crate::pipeline::StageView;
use crate::pipeline::env_views;
use crate::settings::Connection;
use crate::settings::Database;
use crate::text::decimal;
use crate::text::decimal_text;
use crate::text::join2;
use crate::text::join3;
use crate::text::texts;

verus! {

/// The arguments that pass each of `values` behind a copy of `flag`.
pub open spec fn flagged(flag: Seq<char>, values: Seq<Seq<char>>) -> Seq<Seq<char>>
    decreases values.len(),
{
    if values.len() == 0 {
        Seq::empty()
    } else {
        flagged(flag, values.drop_last()) + seq![flag, values.last()]
    }
}

/// Each table's name behind the database's name and a dot.
pub open spec fn qualified(dbname: Seq<char>, tables: Seq<Seq<char>>) -> Seq<Seq<char>> {
    Seq::new(tables.len(), |i: int| dbname + "."@ + tables[i])
}

/// The tables named by an optional list; none where there is no list.
pub open spec fn tables_of(list: Option<Vec<String>>) -> Seq<Seq<char>> {
    match list {
        Some(tables) => texts(tables@),
        None => Seq::empty(),
    }
}

/// The arguments with which `mysqldump` reaches a server.
pub open spec fn mysql_login(
    host: Seq<char>,
    port: u16,
    username: Seq<char>,
    password: Seq<char>,
) -> Seq<Seq<char>> {
    seq!["-h"@, host, "-P"@, decimal(port as nat), "-u"@, username, "-p"@ + password, "-v"@]
}

/// The stage that dumps the table definitions of a MySQL database.
pub open spec fn mysqldump_schema_stage(conn: Connection, dbname: Seq<char>) -> StageView {
    StageView {
        program: "mysqldump"@,
        args: mysql_login(conn.host@, conn.port, conn.username@, conn.password@)
            + seq!["--single-transaction"@, "--no-data"@, dbname],
        env: Seq::empty(),
        output: OutputKind::Raw,
    }
}

/// The stage that dumps the rows of a MySQL database, but for the tables
/// whose rows are left out.
pub open spec fn mysqldump_data_stage(
    conn: Connection,
    dbname: Seq<char>,
    excluded: Seq<Seq<char>>,
) -> StageView {
    StageView {
        program: "mysqldump"@,
        args: mysql_login(conn.host@, conn.port, conn.username@, conn.password@)
            + seq!["--single-transaction"@, "--no-create-info"@, dbname] + flagged(
            "--ignore-table"@,
            qualified(dbname, excluded),
        ),
        env: Seq::empty(),
        output: OutputKind::Raw,
    }
}

/// The stage that dumps a Postgres database, compressed by the tool
/// itself, without the rows of the tables that are left out.
pub open spec fn pg_dump_stage(
    conn: Connection,
    dbname: Seq<char>,
    excluded: Seq<Seq<char>>,
) -> StageView {
    StageView {
        program: "pg_dump"@,
        args: seq![
            "-d"@,
            dbname,
            "-h"@,
            conn.host@,
            "-p"@,
            decimal(conn.port as nat),
            "-U"@,
            conn.username@,
            "-v"@,
            "-Z"@,
            "1"@,
        ] + flagged("--exclude-table-data"@, excluded),
        env: seq![("PGPASSWORD"@, conn.password@)],
        output: OutputKind::Raw,
    }
}

/// The stage that dumps a whole MySQL database in one run, as plain data
/// for the pipeline to compress.
pub open spec fn mysqldump_stage(db: Database) -> StageView {
    StageView {
        program: "mysqldump"@,
        args: mysql_login(db.host@, db.port, db.username@, db.password@)
            + seq![db.dbname@, "--single-transaction"@] + flagged(
            "--ignore-table-data"@,
            qualified(db.dbname@, tables_of(db.exclude_table_data)),
        ),
        env: Seq::empty(),
        output: OutputKind::Compressible,
    }
}

/// Appends one argument.
fn push_arg(args: &mut Vec<String>, arg: &str)
    ensures
        texts(final(args)@) == texts(old(args)@).push(arg@),
{
    args.push(String::from_str(arg));
    assert(texts(args@) =~= texts(old(args)@).push(arg@));
}

/// Appends one owned argument.
fn push_owned(args: &mut Vec<String>, arg: String)
    ensures
        texts(final(args)@) == texts(old(args)@).push(arg@),
{
    args.push(arg);
    assert(texts(args@) =~= texts(old(args)@).push(arg@));
}

/// The arguments with which `mysqldump` reaches a server.
fn mysql_login_args(host: &str, port: u16, username: &str, password: &str) -> (args: Vec<String>)
    ensures
        texts(args@) == mysql_login(host@, port, username@, password@),
{
    let mut args: Vec<String> = Vec::new();
    assert(texts(args@) =~= Seq::<Seq<char>>::empty());
    push_arg(&mut args, "-h");
    push_arg(&mut args, host);
    push_arg(&mut args, "-P");
    push_owned(&mut args, decimal_text(port as u64));
    push_arg(&mut args, "-u");
    push_arg(&mut args, username);
    push_owned(&mut args, join2("-p", password));
    push_arg(&mut args, "-v");
    assert(texts(args@) =~= mysql_login(host@, port, username@, password@));
    args
}

/// Appends `flag` and `dbname.table` for each of the tables.
fn push_qualified(args: &mut Vec<String>, flag: &str, dbname: &str, tables: &Vec<String>)
    ensures
        texts(final(args)@) == texts(old(args)@) + flagged(
            flag@,
            qualified(dbname@, texts(tables@)),
        ),
{
    let ghost names = qualified(dbname@, texts(tables@));
    let mut i: usize = 0;
    assert(names.take(0) =~= Seq::<Seq<char>>::empty());
    assert(texts(args@) + Seq::<Seq<char>>::empty() =~= texts(args@));
    while i < tables.len()
        invariant
            i <= tables@.len(),
            names == qualified(dbname@, texts(tables@)),
            texts(args@) == texts(old(args)@) + flagged(flag@, names.take(i as int)),
        decreases tables@.len() - i,
    {
        let ghost before = texts(args@);
        push_arg(args, flag);
        push_owned(args, join3(dbname, ".", tables[i].as_str()));
        proof {
            assert(names.take(i + 1).drop_last() =~= names.take(i as int));
            assert(names.take(i + 1).last() == names[i as int]);
            assert(texts(args@) =~= texts(old(args)@) + flagged(flag@, names.take(i + 1)));
        }
        i += 1;
    }
    assert(names.take(i as int) =~= names);
}

/// Appends `flag` and the table's name for each of the tables.
fn push_flagged(args: &mut Vec<String>, flag: &str, tables: &Vec<String>)
    ensures
        texts(final(args)@) == texts(old(args)@) + flagged(flag@, texts(tables@)),
{
    let ghost names = texts(tables@);
    let mut i: usize = 0;
    assert(names.take(0) =~= Seq::<Seq<char>>::empty());
    assert(texts(args@) + Seq::<Seq<char>>::empty() =~= texts(args@));
    while i < tables.len()
        invariant
            i <= tables@.len(),
            names == texts(tables@),
            texts(args@) == texts(old(args)@) + flagged(flag@, names.take(i as int)),
        decreases tables@.len() - i,
    {
        push_arg(args, flag);
        push_arg(args, tables[i].as_str());
        proof {
            assert(names.take(i + 1).drop_last() =~= names.take(i as int));
            assert(names.take(i + 1).last() == names[i as int]);
            assert(texts(args@) =~= texts(old(args)@) + flagged(flag@, names.take(i + 1)));
        }
        i += 1;
    }
    assert(names.take(i as int) =~= names);
}

/// The command that dumps the table definitions of a MySQL database.
pub fn mysqldump_schema(conn: &Connection, dbname: &str) -> (stage: Stage)
    ensures
        stage@ == mysqldump_schema_stage(*conn, dbname@),
{
    let mut args: Vec<String> = mysql_login_args(
        conn.host.as_str(),
        conn.port,
        conn.username.as_str(),
        conn.password.as_str(),
    );
    let ghost login = texts(args@);
    push_arg(&mut args, "--single-transaction");
    push_arg(&mut args, "--no-data");
    push_arg(&mut args, dbname);
    let env: Vec<EnvVar> = Vec::new();
    proof {
        assert(texts(args@) =~= login + seq!["--single-transaction"@, "--no-data"@, dbname@]);
        assert(env_views(env@) =~= Seq::<(Seq<char>, Seq<char>)>::empty());
    }
    Stage { program: String::from_str("mysqldump"), args, env, output: OutputKind::Raw }
}

/// The command that dumps the rows of a MySQL database. The rows of the
/// tables in `exclude_table_data` are left out.
pub fn mysqldump_data(conn: &Connection, dbname: &str, exclude_table_data: Option<Vec<String>>) -> (stage: Stage)
    ensures
        stage@ == mysqldump_data_stage(*conn, dbname@, tables_of(exclude_table_data)),
{
    let mut args: Vec<String> = mysql_login_args(
        conn.host.as_str(),
        conn.port,
        conn.username.as_str(),
        conn.password.as_str(),
    );
    let ghost login = texts(args@);
    push_arg(&mut args, "--single-transaction");
    push_arg(&mut args, "--no-create-info");
    push_arg(&mut args, dbname);
    assert(texts(args@) =~= login + seq!["--single-transaction"@, "--no-create-info"@, dbname@]);
    match &exclude_table_data {
        Some(tables) => {
            push_qualified(&mut args, "--ignore-table", dbname, tables);
        },
        None => {
            assert(qualified(dbname@, Seq::<Seq<char>>::empty()) =~= Seq::<Seq<char>>::empty());
            assert(texts(args@) + Seq::<Seq<char>>::empty() =~= texts(args@));
        },
    }
    let env: Vec<EnvVar> = Vec::new();
    assert(env_views(env@) =~= Seq::<(Seq<char>, Seq<char>)>::empty());
    Stage { program: String::from_str("mysqldump"), args, env, output: OutputKind::Raw }
}

/// The command that dumps a Postgres database. The rows of the tables in
/// `exclude_table_data` are left out. The password travels in the
/// environment.
pub fn pg_dump(conn: &Connection, dbname: &str, exclude_table_data: Option<Vec<String>>) -> (stage: Stage)
    ensures
        stage@ == pg_dump_stage(*conn, dbname@, tables_of(exclude_table_data)),
{
    let mut args: Vec<String> = Vec::new();
    assert(texts(args@) =~= Seq::<Seq<char>>::empty());
    push_arg(&mut args, "-d");
    push_arg(&mut args, dbname);
    push_arg(&mut args, "-h");
    push_arg(&mut args, conn.host.as_str());
    push_arg(&mut args, "-p");
    push_owned(&mut args, decimal_text(conn.port as u64));
    push_arg(&mut args, "-U");
    push_arg(&mut args, conn.username.as_str());
    push_arg(&mut args, "-v");
    push_arg(&mut args, "-Z");
    push_arg(&mut args, "1");
    assert(texts(args@) =~= seq![
        "-d"@,
        dbname@,
        "-h"@,
        conn.host@,
        "-p"@,
        decimal(conn.port as nat),
        "-U"@,
        conn.username@,
        "-v"@,
        "-Z"@,
        "1"@,
    ]);
    match &exclude_table_data {
        Some(tables) => {
            push_flagged(&mut args, "--exclude-table-data", tables);
        },
        None => {
            assert(texts(args@) + Seq::<Seq<char>>::empty() =~= texts(args@));
        },
    }
    let mut env: Vec<EnvVar> = Vec::new();
    env.push(EnvVar { name: String::from_str("PGPASSWORD"), value: conn.password.clone() });
    assert(env_views(env@) =~= seq![("PGPASSWORD"@, conn.password@)]);
    Stage { program: String::from_str("pg_dump"), args, env, output: OutputKind::Raw }
}

/// The command that dumps a whole MySQL database in one run. Its output
/// is plain, for the pipeline to compress.
pub fn mysqldump(db: &Database) -> (stage: Stage)
    ensures
        stage@ == mysqldump_stage(*db),
{
    let mut args: Vec<String> = mysql_login_args(
        db.host.as_str(),
        db.port,
        db.username.as_str(),
        db.password.as_str(),
    );
    let ghost login = texts(args@);
    push_arg(&mut args, db.dbname.as_str());
    push_arg(&mut args, "--single-transaction");
    assert(texts(args@) =~= login + seq![db.dbname@, "--single-transaction"@]);
    match &db.exclude_table_data {
        Some(tables) => {
            push_qualified(&mut args, "--ignore-table-data", db.dbname.as_str(), tables);
        },
        None => {
            assert(qualified(db.dbname@, Seq::<Seq<char>>::empty()) =~= Seq::<Seq<char>>::empty());
            assert(texts(args@) + Seq::<Seq<char>>::empty() =~= texts(args@));
        },
    }
    let env: Vec<EnvVar> = Vec::new();
    assert(env_views(env@) =~= Seq::<(Seq<char>, Seq<char>)>::empty());
    Stage { program: String::from_str("mysqldump"), args, env, output: OutputKind::Compressible }
}

} // verus!
