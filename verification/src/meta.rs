//! The metadata shown for the focused file: one reading per file (re-asking for the same file
//! starts nothing), its fields, and the download provenance (Windows `Zone.Identifier`).
use vstd::prelude::*;
use crate::text::{text_is, u64_to_decimal, decimal};

verus! {

/// What reading a file's `Zone.Identifier` stream gave.
#[derive(Clone, Debug, PartialEq, Eq)]
pub enum ZoneRead {
    /// The stream exists, with whatever of its values it holds.
    Present { zone_id: Option<u64>, host_url: Option<String>, referrer_url: Option<String> },
    /// No stream.
    Absent,
    /// Reading failed.
    Error(String),
}

/// The provenance fields a zone reading adds, (label key, value), and whether the file has a
/// zone stream: the zone, the host and the referrer when present; the error as a status field.
pub open spec fn zone_fields_spec(z: ZoneRead) -> (Seq<(Seq<char>, Seq<char>)>, bool) {
    match z {
        ZoneRead::Present { zone_id, host_url, referrer_url } => {
            let a: Seq<(Seq<char>, Seq<char>)> = match zone_id {
                Some(id) => seq![("meta.zone"@, decimal(id as nat))],
                None => Seq::empty(),
            };
            let b: Seq<(Seq<char>, Seq<char>)> = match host_url {
                Some(u) => seq![("meta.host_url"@, u@)],
                None => Seq::empty(),
            };
            let c: Seq<(Seq<char>, Seq<char>)> = match referrer_url {
                Some(u) => seq![("meta.referrer_url"@, u@)],
                None => Seq::empty(),
            };
            (a + b + c, true)
        },
        ZoneRead::Absent => (Seq::empty(), false),
        ZoneRead::Error(e) => (seq![("meta.zone_status"@, e@)], false),
    }
}

/// The views of listed fields.
pub open spec fn field_views(v: Seq<(String, String)>) -> Seq<(Seq<char>, Seq<char>)> {
    v.map_values(|p: (String, String)| (p.0@, p.1@))
}

/// The provenance fields of a zone reading (see `zone_fields_spec`).
pub fn zone_fields(z: ZoneRead) -> (r: (Vec<(String, String)>, bool))
    ensures
        (field_views(r.0@), r.1) == zone_fields_spec(z),
{
    let mut out: Vec<(String, String)> = Vec::new();
    match z {
        ZoneRead::Present { zone_id, host_url, referrer_url } => {
            let ghost gh = host_url;
            let ghost gr = referrer_url;
            if let Some(id) = zone_id {
                out.push(("meta.zone".to_string(), u64_to_decimal(id)));
            }
            let ghost a = field_views(out@);
            if let Some(u) = host_url {
                out.push(("meta.host_url".to_string(), u));
            }
            let ghost b = field_views(out@);
            if let Some(u) = referrer_url {
                out.push(("meta.referrer_url".to_string(), u));
            }
            proof {
                let sa: Seq<(Seq<char>, Seq<char>)> = match zone_id {
                    Some(id) => seq![("meta.zone"@, decimal(id as nat))],
                    None => Seq::empty(),
                };
                assert(a =~= sa);
                let sb: Seq<(Seq<char>, Seq<char>)> = match gh {
                    Some(u) => seq![("meta.host_url"@, u@)],
                    None => Seq::empty(),
                };
                assert(b =~= sa + sb);
                let sc: Seq<(Seq<char>, Seq<char>)> = match gr {
                    Some(u) => seq![("meta.referrer_url"@, u@)],
                    None => Seq::empty(),
                };
                assert(field_views(out@) =~= sa + sb + sc);
            }
            (out, true)
        },
        ZoneRead::Absent => {
            assert(field_views(out@) =~= Seq::empty());
            (out, false)
        },
        ZoneRead::Error(e) => {
            out.push(("meta.zone_status".to_string(), e));
            assert(field_views(out@) =~= seq![("meta.zone_status"@, z->Error_0@)]);
            (out, false)
        },
    }
}

/// The metadata reading of one file.
#[derive(Clone, Debug, PartialEq, Eq)]
pub struct MetaJob {
    pub path: String,
    /// The reading finished.
    pub done: bool,
    /// The fields read: (label key, value).
    pub fields: Vec<(String, String)>,
    pub has_zone: bool,
}

/// Whether asking for the metadata of `path` starts a reading: not when a reading of that same
/// file exists (running or finished); otherwise the previous one is dropped and a new one starts.
pub fn starts_reading(current: Option<&MetaJob>, path: &str) -> (r: bool)
    ensures
        r == (match current {
            Some(j) => j.path@ != path@,
            None => true,
        }),
{
    match current {
        Some(j) => !text_is(j.path.as_str(), path),
        None => true,
    }
}

impl MetaJob {
    /// A reading of `path` just started.
    pub fn new(path: String) -> (r: Self)
        ensures
            r.path == path,
            !r.done,
            r.fields@.len() == 0,
            !r.has_zone,
    {
        MetaJob { path, done: false, fields: Vec::new(), has_zone: false }
    }

    /// The reading's result arrived: its fields and provenance, and the reading is done.
    pub fn finish(&mut self, fields: Vec<(String, String)>, has_zone: bool)
        ensures
            final(self).done,
            final(self).fields == fields,
            final(self).has_zone == has_zone,
            final(self).path == old(self).path,
    {
        self.fields = fields;
        self.has_zone = has_zone;
        self.done = true;
    }

    /// A reading is in flight ("Reading…").
    pub fn loading(&self) -> (r: bool)
        ensures
            r == !self.done,
    {
        !self.done
    }

    /// The file has a zone stream, once read (so that unblocking stays reachable even without
    /// zone values).
    pub fn has_provenance(&self) -> (r: bool)
        ensures
            r == (self.done && self.has_zone),
    {
        self.done && self.has_zone
    }
}

/// What the basic metadata read of the inspected item gave: nothing yet, an error text, or
/// whether it is a folder.
#[derive(Clone, Debug, PartialEq, Eq)]
pub enum BasicRead {
    Pending,
    Failed(String),
    Read { is_dir: bool },
}

/// The "kind" line of the basket inspector: the error of the read, "loading" while nothing
/// came back, else the folder or file label.
pub fn inspector_kind(basic: &BasicRead, loading: &str, folder: &str, file: &str) -> (r: String)
    ensures
        r@ == (match basic {
            BasicRead::Pending => loading@,
            BasicRead::Failed(e) => e@,
            BasicRead::Read { is_dir } => if *is_dir { folder@ } else { file@ },
        }),
{
    match basic {
        BasicRead::Pending => loading.to_owned(),
        BasicRead::Failed(e) => e.clone(),
        BasicRead::Read { is_dir } => if *is_dir { folder.to_owned() } else { file.to_owned() },
    }
}

/// Whether the inspector shows a size: only for a file whose metadata was read.
pub fn inspector_shows_size(basic: &BasicRead) -> (r: bool)
    ensures
        r == (match *basic {
            BasicRead::Read { is_dir } => !is_dir,
            _ => false,
        }),
{
    match basic {
        BasicRead::Read { is_dir } => !*is_dir,
        _ => false,
    }
}

} // verus!
