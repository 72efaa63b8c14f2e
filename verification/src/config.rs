//! The parameters of the connection to the database.

use vstd::prelude::*;
use vstd::string::*;

verus! {

/// The parameters as one string of `key=value` pairs, a space between two.
pub open spec fn connection_text(
    host: Seq<char>,
    port: Seq<char>,
    user: Seq<char>,
    dbname: Seq<char>,
    password: Seq<char>,
) -> Seq<char> {
    "host="@ + host + " port="@ + port + " user="@ + user + " dbname="@ + dbname + " password="@
        + password
}

/// The connection string for the given parameters.
pub fn connection_string(host: &str, port: &str, user: &str, dbname: &str, password: &str) -> (s:
    String)
    ensures
        s@ == connection_text(host@, port@, user@, dbname@, password@),
{
    let mut s = String::from_str("host=");
    s.append(host);
    s.append(" port=");
    s.append(port);
    s.append(" user=");
    s.append(user);
    s.append(" dbname=");
    s.append(dbname);
    s.append(" password=");
    s.append(password);
    s
}

/// The parameters of the local development database.
pub fn get_database_config() -> (s: String)
    ensures
        s@ == connection_text(
            "localhost"@,
            "5432"@,
            "db_user"@,
            "paste_db_new"@,
            "userpassword123"@,
        ),
{
    connection_string("localhost", "5432", "db_user", "paste_db_new", "userpassword123")
}

} // verus!
