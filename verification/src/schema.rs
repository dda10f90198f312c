//! The graph schema.
use vstd::prelude::*;

verus! {

/// The statements that create the graph's tables, in the order they run.
pub fn schema_ddls() -> (r: Vec<&'static str>)
    ensures
        r@.len() == 7,
        r@[0]@ == "CREATE NODE TABLE File (path STRING, language STRING, file_size INT64, hash STRING, raw_imports STRING, PRIMARY KEY (path))"@,
        r@[1]@ == "CREATE NODE TABLE Symbol (id STRING, name STRING, kind STRING, start_line INT64, start_col INT64, end_line INT64, signature STRING, raw_calls STRING, pagerank DOUBLE, PRIMARY KEY (id))"@,
        r@[2]@ == "CREATE NODE TABLE Chunk (id STRING, text STRING, language STRING, embedding FLOAT[384], PRIMARY KEY (id))"@,
        r@[3]@ == "CREATE REL TABLE CONTAINS (FROM File TO Symbol, FROM Symbol TO Symbol)"@,
        r@[4]@ == "CREATE REL TABLE IMPORTS (FROM File TO File)"@,
        r@[5]@ == "CREATE REL TABLE CALLS (FROM Symbol TO Symbol, call_site_line INT64)"@,
        r@[6]@ == "CREATE REL TABLE DOCUMENTED_BY (FROM File TO Chunk, FROM Symbol TO Chunk)"@,
{
    let mut v: Vec<&'static str> = Vec::new();
    v.push("CREATE NODE TABLE File (path STRING, language STRING, file_size INT64, hash STRING, raw_imports STRING, PRIMARY KEY (path))");
    v.push("CREATE NODE TABLE Symbol (id STRING, name STRING, kind STRING, start_line INT64, start_col INT64, end_line INT64, signature STRING, raw_calls STRING, pagerank DOUBLE, PRIMARY KEY (id))");
    v.push("CREATE NODE TABLE Chunk (id STRING, text STRING, language STRING, embedding FLOAT[384], PRIMARY KEY (id))");
    v.push("CREATE REL TABLE CONTAINS (FROM File TO Symbol, FROM Symbol TO Symbol)");
    v.push("CREATE REL TABLE IMPORTS (FROM File TO File)");
    v.push("CREATE REL TABLE CALLS (FROM Symbol TO Symbol, call_site_line INT64)");
    v.push("CREATE REL TABLE DOCUMENTED_BY (FROM File TO Chunk, FROM Symbol TO Chunk)");
    v
}

/// Whether a failed schema statement only says that the table exists
/// already (its lower-cased message mentions `already exists` or
/// `duplicate`), which initialization ignores.
pub fn is_existing_table_error(message: &str) -> (r: bool)
    ensures
        r == (crate::text::contains(crate::text::lowercase(message@), "already exists"@)
            || crate::text::contains(crate::text::lowercase(message@), "duplicate"@)),
{
    let lower = crate::text::to_lowercase(message);
    let lc = crate::text::to_chars(lower.as_str());
    let a = crate::text::to_chars("already exists");
    let d = crate::text::to_chars("duplicate");
    crate::text::contains_chars(lc.as_slice(), a.as_slice()) || crate::text::contains_chars(lc.as_slice(), d.as_slice())
}

} // verus!
