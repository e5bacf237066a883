//! The blacklists of calls and imports, and the table of enabled entries
//! handed to the builtin `B001` test.
//!
//! Matching rules of `B001`: a call is reported by the first entry (in list
//! order) one of whose qualified names equals the call's qualified name; an
//! import by the first entry one of whose qualified names prefixes the
//! imported name. The issue has the entry's level as severity (`MEDIUM` when
//! the level is not a rank name), `HIGH` confidence, the entry's weakness
//! and id, and the message with every `{name}` replaced by the name.

use vstd::prelude::*;
use crate::constants::{Rank, parse_rank};
use crate::engine::issue::{Cwe, IssueDraft};
use crate::text::{replace_all, replace_str, str_eq, to_owned_string, copy_string, copy_strings, contains_string, views_of};

verus! {

/// What a blacklist entry says, as plain sequences.
pub struct EntryModel {
    pub name: Seq<char>,
    pub id: Seq<char>,
    pub cwe: u32,
    pub qualnames: Seq<Seq<char>>,
    pub message: Seq<char>,
    pub level: Seq<char>,
}

/// The views of string slices.
pub open spec fn str_views(s: Seq<&'static str>) -> Seq<Seq<char>> {
    s.map_values(|q: &'static str| q@)
}

/// The views of strings.
pub open spec fn string_views(s: Seq<String>) -> Seq<Seq<char>> {
    s.map_values(|q: String| q@)
}

/// An entry model from literal fields.
pub open spec fn em(
    name: &'static str,
    id: &'static str,
    cwe: u32,
    qualnames: Seq<&'static str>,
    message: &'static str,
    level: &'static str,
) -> EntryModel {
    EntryModel { name: name@, id: id@, cwe, qualnames: str_views(qualnames), message: message@, level: level@ }
}

/// A blacklist entry as written in the built-in tables.
#[derive(Debug, Clone)]
pub struct StaticEntry {
    pub name: &'static str,
    pub id: &'static str,
    pub cwe: Cwe,
    pub qualnames: Vec<&'static str>,
    pub message: &'static str,
    pub level: &'static str,
}

/// What a built-in entry says.
pub open spec fn static_view(e: StaticEntry) -> EntryModel {
    em(e.name, e.id, e.cwe.0, e.qualnames@, e.message, e.level)
}

/// What built-in entries say.
pub open spec fn static_views(s: Seq<StaticEntry>) -> Seq<EntryModel> {
    s.map_values(|e: StaticEntry| static_view(e))
}

/// One blacklist datum.
#[derive(Debug, Clone)]
pub struct BlacklistEntry {
    pub name: String,
    pub id: String,
    pub cwe: Cwe,
    pub qualnames: Vec<String>,
    pub message: String,
    /// Severity level name; other strings than rank names are kept.
    pub level: String,
}

/// What an entry says.
pub open spec fn entry_view(e: BlacklistEntry) -> EntryModel {
    EntryModel {
        name: e.name@,
        id: e.id@,
        cwe: e.cwe.0,
        qualnames: string_views(e.qualnames@),
        message: e.message@,
        level: e.level@,
    }
}

/// What entries say.
pub open spec fn entry_views(s: Seq<BlacklistEntry>) -> Seq<EntryModel> {
    s.map_values(|e: BlacklistEntry| entry_view(e))
}

/// Severity of the issues an entry reports.
pub open spec fn entry_severity(level: Seq<char>) -> Rank {
    match parse_rank(level) {
        Some(r) => r,
        None => Rank::Medium,
    }
}

impl BlacklistEntry {
    /// The issue reported for `name` by this entry.
    pub fn report_issue(&self, name: &str) -> (r: IssueDraft)
        ensures
            r.severity == entry_severity(self.level@),
            r.confidence == Rank::High,
            r.cwe == self.cwe,
            r.text@ == replace_all(self.message@, "{name}"@, name@),
            r.ident is Some && r.ident.unwrap()@ == name@,
            r.test_id is Some && r.test_id.unwrap()@ == self.id@,
            r.lineno is None && r.col_offset is None && r.linerange is None,
    {
        let severity = match Rank::parse(self.level.as_str()) {
            Some(r) => r,
            None => Rank::Medium,
        };
        proof {
            reveal_strlit("{name}");
        }
        let text = replace_str(self.message.as_str(), "{name}", name);
        IssueDraft::new(severity, Rank::High, self.cwe, text.as_str()).with_ident(name).with_test_id(
            self.id.as_str(),
        )
    }
}

fn owned_names(q: &Vec<&'static str>) -> (r: Vec<String>)
    ensures
        string_views(r@) == str_views(q@),
{
    let mut out: Vec<String> = Vec::new();
    let mut i: usize = 0;
    while i < q.len()
        invariant
            i <= q@.len(),
            string_views(out@) =~= str_views(q@).subrange(0, i as int),
        decreases q@.len() - i,
    {
        let x = to_owned_string(q[i]);
        let ghost before = out@;
        out.push(x);
        assert(string_views(out@) =~= string_views(before).push(x@));
        assert(str_views(q@)[i as int] == q@[i as int]@);
        i = i + 1;
    }
    assert(string_views(out@) =~= str_views(q@));
    out
}

impl StaticEntry {
    /// The owned form of the entry.
    pub fn to_entry(&self) -> (r: BlacklistEntry)
        ensures
            entry_view(r) == static_view(*self),
    {
        BlacklistEntry {
            name: to_owned_string(self.name),
            id: to_owned_string(self.id),
            cwe: self.cwe,
            qualnames: owned_names(&self.qualnames),
            message: to_owned_string(self.message),
            level: to_owned_string(self.level),
        }
    }
}

/// The `Call` blacklist, in list order.
pub open spec fn call_entries() -> Seq<EntryModel> {
    seq![
        em("pickle", "B301", 502, seq!["pickle.loads", "pickle.load", "pickle.Unpickler", "dill.loads", "dill.load", "dill.Unpickler", "shelve.open", "shelve.DbfilenameShelf", "jsonpickle.decode", "jsonpickle.unpickler.decode", "jsonpickle.unpickler.Unpickler", "pandas.read_pickle"], "Pickle and modules that wrap it can be unsafe when used to deserialize untrusted data, possible security issue.", "MEDIUM"),
        em("marshal", "B302", 502, seq!["marshal.load", "marshal.loads"], "Deserialization with the marshal module is possibly dangerous.", "MEDIUM"),
        em("md5", "B303", 327, seq!["Crypto.Hash.MD2.new", "Crypto.Hash.MD4.new", "Crypto.Hash.MD5.new", "Crypto.Hash.SHA.new", "Cryptodome.Hash.MD2.new", "Cryptodome.Hash.MD4.new", "Cryptodome.Hash.MD5.new", "Cryptodome.Hash.SHA.new", "cryptography.hazmat.primitives.hashes.MD5", "cryptography.hazmat.primitives.hashes.SHA1"], "Use of insecure MD2, MD4, MD5, or SHA1 hash function.", "MEDIUM"),
        em("ciphers", "B304", 327, seq!["Crypto.Cipher.ARC2.new", "Crypto.Cipher.ARC4.new", "Crypto.Cipher.Blowfish.new", "Crypto.Cipher.DES.new", "Crypto.Cipher.XOR.new", "Cryptodome.Cipher.ARC2.new", "Cryptodome.Cipher.ARC4.new", "Cryptodome.Cipher.Blowfish.new", "Cryptodome.Cipher.DES.new", "Cryptodome.Cipher.XOR.new", "cryptography.hazmat.primitives.ciphers.algorithms.ARC4", "cryptography.hazmat.primitives.ciphers.algorithms.Blowfish", "cryptography.hazmat.primitives.ciphers.algorithms.CAST5", "cryptography.hazmat.primitives.ciphers.algorithms.IDEA", "cryptography.hazmat.primitives.ciphers.algorithms.SEED", "cryptography.hazmat.primitives.ciphers.algorithms.TripleDES"], "Use of insecure cipher {name}. Replace with a known secure cipher such as AES.", "HIGH"),
        em("cipher_modes", "B305", 327, seq!["cryptography.hazmat.primitives.ciphers.modes.ECB"], "Use of insecure cipher mode {name}.", "MEDIUM"),
        em("mktemp_q", "B306", 377, seq!["tempfile.mktemp"], "Use of insecure and deprecated function (mktemp).", "MEDIUM"),
        em("eval", "B307", 78, seq!["eval"], "Use of possibly insecure function - consider using safer ast.literal_eval.", "MEDIUM"),
        em("mark_safe", "B308", 79, seq!["django.utils.safestring.mark_safe"], "Use of mark_safe() may expose cross-site scripting vulnerabilities and should be reviewed.", "MEDIUM"),
        em("urllib_urlopen", "B310", 22, seq!["urllib.request.urlopen", "urllib.request.urlretrieve", "urllib.request.URLopener", "urllib.request.FancyURLopener", "six.moves.urllib.request.urlopen", "six.moves.urllib.request.urlretrieve", "six.moves.urllib.request.URLopener", "six.moves.urllib.request.FancyURLopener"], "Audit url open for permitted schemes. Allowing use of file:/ or custom schemes is often unexpected.", "MEDIUM"),
        em("random", "B311", 330, seq!["random.Random", "random.random", "random.randrange", "random.randint", "random.choice", "random.choices", "random.uniform", "random.triangular", "random.randbytes", "random.sample", "random.randrange", "random.getrandbits"], "Standard pseudo-random generators are not suitable for security/cryptographic purposes.", "LOW"),
        em("telnetlib", "B312", 319, seq!["telnetlib.Telnet"], "Telnet-related functions are being called. Telnet is considered insecure. Use SSH or some other encrypted protocol.", "HIGH"),
        em("xml_bad_cElementTree", "B313", 20, seq!["xml.etree.cElementTree.parse", "xml.etree.cElementTree.iterparse", "xml.etree.cElementTree.fromstring", "xml.etree.cElementTree.XMLParser"], "Using {name} to parse untrusted XML data is known to be vulnerable to XML attacks. Replace {name} with its defusedxml equivalent function or make sure defusedxml.defuse_stdlib() is called", "MEDIUM"),
        em("xml_bad_ElementTree", "B314", 20, seq!["xml.etree.ElementTree.parse", "xml.etree.ElementTree.iterparse", "xml.etree.ElementTree.fromstring", "xml.etree.ElementTree.XMLParser"], "Using {name} to parse untrusted XML data is known to be vulnerable to XML attacks. Replace {name} with its defusedxml equivalent function or make sure defusedxml.defuse_stdlib() is called", "MEDIUM"),
        em("xml_bad_expatreader", "B315", 20, seq!["xml.sax.expatreader.create_parser"], "Using {name} to parse untrusted XML data is known to be vulnerable to XML attacks. Replace {name} with its defusedxml equivalent function or make sure defusedxml.defuse_stdlib() is called", "MEDIUM"),
        em("xml_bad_expatbuilder", "B316", 20, seq!["xml.dom.expatbuilder.parse", "xml.dom.expatbuilder.parseString"], "Using {name} to parse untrusted XML data is known to be vulnerable to XML attacks. Replace {name} with its defusedxml equivalent function or make sure defusedxml.defuse_stdlib() is called", "MEDIUM"),
        em("xml_bad_sax", "B317", 20, seq!["xml.sax.parse", "xml.sax.parseString", "xml.sax.make_parser"], "Using {name} to parse untrusted XML data is known to be vulnerable to XML attacks. Replace {name} with its defusedxml equivalent function or make sure defusedxml.defuse_stdlib() is called", "MEDIUM"),
        em("xml_bad_minidom", "B318", 20, seq!["xml.dom.minidom.parse", "xml.dom.minidom.parseString"], "Using {name} to parse untrusted XML data is known to be vulnerable to XML attacks. Replace {name} with its defusedxml equivalent function or make sure defusedxml.defuse_stdlib() is called", "MEDIUM"),
        em("xml_bad_pulldom", "B319", 20, seq!["xml.dom.pulldom.parse", "xml.dom.pulldom.parseString"], "Using {name} to parse untrusted XML data is known to be vulnerable to XML attacks. Replace {name} with its defusedxml equivalent function or make sure defusedxml.defuse_stdlib() is called", "MEDIUM"),
        em("ftplib", "B321", 319, seq!["ftplib.FTP"], "FTP-related functions are being called. FTP is considered insecure. Use SSH/SFTP/SCP or some other encrypted protocol.", "HIGH"),
        em("unverified_context", "B323", 295, seq!["ssl._create_unverified_context"], "By default, Python will create a secure, verified ssl context for use in such classes as HTTPSConnection. However, it still allows using an insecure context via the _create_unverified_context that  reverts to the previous behavior that does not validate certificates or perform hostname checks.", "MEDIUM"),
    ]
}

/// The import blacklist, in list order.
pub open spec fn import_entries() -> Seq<EntryModel> {
    seq![
        em("import_telnetlib", "B401", 319, seq!["telnetlib"], "A telnet-related module is being imported.  Telnet is considered insecure. Use SSH or some other encrypted protocol.", "HIGH"),
        em("import_ftplib", "B402", 319, seq!["ftplib"], "A FTP-related module is being imported.  FTP is considered insecure. Use SSH/SFTP/SCP or some other encrypted protocol.", "HIGH"),
        em("import_pickle", "B403", 502, seq!["pickle", "cPickle", "dill", "shelve"], "Consider possible security implications associated with {name} module.", "LOW"),
        em("import_subprocess", "B404", 78, seq!["subprocess"], "Consider possible security implications associated with the subprocess module.", "LOW"),
        em("import_xml_etree", "B405", 20, seq!["xml.etree.cElementTree", "xml.etree.ElementTree"], "Using {name} to parse untrusted XML data is known to be vulnerable to XML attacks. Replace {name} with the equivalent defusedxml package, or make sure defusedxml.defuse_stdlib() is called.", "LOW"),
        em("import_xml_sax", "B406", 20, seq!["xml.sax"], "Using {name} to parse untrusted XML data is known to be vulnerable to XML attacks. Replace {name} with the equivalent defusedxml package, or make sure defusedxml.defuse_stdlib() is called.", "LOW"),
        em("import_xml_expat", "B407", 20, seq!["xml.dom.expatbuilder"], "Using {name} to parse untrusted XML data is known to be vulnerable to XML attacks. Replace {name} with the equivalent defusedxml package, or make sure defusedxml.defuse_stdlib() is called.", "LOW"),
        em("import_xml_minidom", "B408", 20, seq!["xml.dom.minidom"], "Using {name} to parse untrusted XML data is known to be vulnerable to XML attacks. Replace {name} with the equivalent defusedxml package, or make sure defusedxml.defuse_stdlib() is called.", "LOW"),
        em("import_xml_pulldom", "B409", 20, seq!["xml.dom.pulldom"], "Using {name} to parse untrusted XML data is known to be vulnerable to XML attacks. Replace {name} with the equivalent defusedxml package, or make sure defusedxml.defuse_stdlib() is called.", "LOW"),
        em("import_xmlrpclib", "B411", 20, seq!["xmlrpc"], "Using {name} to parse untrusted XML data is known to be vulnerable to XML attacks. Use defusedxml.xmlrpc.monkey_patch() function to monkey-patch xmlrpclib and mitigate XML vulnerabilities.", "HIGH"),
        em("import_httpoxy", "B412", 284, seq!["wsgiref.handlers.CGIHandler", "twisted.web.twcgi.CGIScript", "twisted.web.twcgi.CGIDirectory"], "Consider possible security implications associated with {name} module.", "HIGH"),
        em("import_pycrypto", "B413", 327, seq!["Crypto.Cipher", "Crypto.Hash", "Crypto.IO", "Crypto.Protocol", "Crypto.PublicKey", "Crypto.Random", "Crypto.Signature", "Crypto.Util"], "The pyCrypto library and its module {name} are no longer actively maintained and have been deprecated. Consider using pyca/cryptography library.", "HIGH"),
        em("import_pyghmi", "B415", 319, seq!["pyghmi"], "An IPMI-related module is being imported. IPMI is considered insecure. Use an encrypted protocol.", "HIGH"),
    ]
}

/// The `Call` blacklist, in list order.
#[verifier::rlimit(50)]
pub fn blacklist_calls() -> (r: Vec<StaticEntry>)
    ensures
        static_views(r@) == call_entries(),
{
    let mut v: Vec<StaticEntry> = Vec::new();
    let q = vec!["pickle.loads", "pickle.load", "pickle.Unpickler", "dill.loads", "dill.load", "dill.Unpickler", "shelve.open", "shelve.DbfilenameShelf", "jsonpickle.decode", "jsonpickle.unpickler.decode", "jsonpickle.unpickler.Unpickler", "pandas.read_pickle"];
    assert(q@ =~= seq!["pickle.loads", "pickle.load", "pickle.Unpickler", "dill.loads", "dill.load", "dill.Unpickler", "shelve.open", "shelve.DbfilenameShelf", "jsonpickle.decode", "jsonpickle.unpickler.decode", "jsonpickle.unpickler.Unpickler", "pandas.read_pickle"]);
    v.push(StaticEntry { name: "pickle", id: "B301", cwe: Cwe(502), qualnames: q, message: "Pickle and modules that wrap it can be unsafe when used to deserialize untrusted data, possible security issue.", level: "MEDIUM" });
    let q = vec!["marshal.load", "marshal.loads"];
    assert(q@ =~= seq!["marshal.load", "marshal.loads"]);
    v.push(StaticEntry { name: "marshal", id: "B302", cwe: Cwe(502), qualnames: q, message: "Deserialization with the marshal module is possibly dangerous.", level: "MEDIUM" });
    let q = vec!["Crypto.Hash.MD2.new", "Crypto.Hash.MD4.new", "Crypto.Hash.MD5.new", "Crypto.Hash.SHA.new", "Cryptodome.Hash.MD2.new", "Cryptodome.Hash.MD4.new", "Cryptodome.Hash.MD5.new", "Cryptodome.Hash.SHA.new", "cryptography.hazmat.primitives.hashes.MD5", "cryptography.hazmat.primitives.hashes.SHA1"];
    assert(q@ =~= seq!["Crypto.Hash.MD2.new", "Crypto.Hash.MD4.new", "Crypto.Hash.MD5.new", "Crypto.Hash.SHA.new", "Cryptodome.Hash.MD2.new", "Cryptodome.Hash.MD4.new", "Cryptodome.Hash.MD5.new", "Cryptodome.Hash.SHA.new", "cryptography.hazmat.primitives.hashes.MD5", "cryptography.hazmat.primitives.hashes.SHA1"]);
    v.push(StaticEntry { name: "md5", id: "B303", cwe: Cwe(327), qualnames: q, message: "Use of insecure MD2, MD4, MD5, or SHA1 hash function.", level: "MEDIUM" });
    let q = vec!["Crypto.Cipher.ARC2.new", "Crypto.Cipher.ARC4.new", "Crypto.Cipher.Blowfish.new", "Crypto.Cipher.DES.new", "Crypto.Cipher.XOR.new", "Cryptodome.Cipher.ARC2.new", "Cryptodome.Cipher.ARC4.new", "Cryptodome.Cipher.Blowfish.new", "Cryptodome.Cipher.DES.new", "Cryptodome.Cipher.XOR.new", "cryptography.hazmat.primitives.ciphers.algorithms.ARC4", "cryptography.hazmat.primitives.ciphers.algorithms.Blowfish", "cryptography.hazmat.primitives.ciphers.algorithms.CAST5", "cryptography.hazmat.primitives.ciphers.algorithms.IDEA", "cryptography.hazmat.primitives.ciphers.algorithms.SEED", "cryptography.hazmat.primitives.ciphers.algorithms.TripleDES"];
    assert(q@ =~= seq!["Crypto.Cipher.ARC2.new", "Crypto.Cipher.ARC4.new", "Crypto.Cipher.Blowfish.new", "Crypto.Cipher.DES.new", "Crypto.Cipher.XOR.new", "Cryptodome.Cipher.ARC2.new", "Cryptodome.Cipher.ARC4.new", "Cryptodome.Cipher.Blowfish.new", "Cryptodome.Cipher.DES.new", "Cryptodome.Cipher.XOR.new", "cryptography.hazmat.primitives.ciphers.algorithms.ARC4", "cryptography.hazmat.primitives.ciphers.algorithms.Blowfish", "cryptography.hazmat.primitives.ciphers.algorithms.CAST5", "cryptography.hazmat.primitives.ciphers.algorithms.IDEA", "cryptography.hazmat.primitives.ciphers.algorithms.SEED", "cryptography.hazmat.primitives.ciphers.algorithms.TripleDES"]);
    v.push(StaticEntry { name: "ciphers", id: "B304", cwe: Cwe(327), qualnames: q, message: "Use of insecure cipher {name}. Replace with a known secure cipher such as AES.", level: "HIGH" });
    let q = vec!["cryptography.hazmat.primitives.ciphers.modes.ECB"];
    assert(q@ =~= seq!["cryptography.hazmat.primitives.ciphers.modes.ECB"]);
    v.push(StaticEntry { name: "cipher_modes", id: "B305", cwe: Cwe(327), qualnames: q, message: "Use of insecure cipher mode {name}.", level: "MEDIUM" });
    let q = vec!["tempfile.mktemp"];
    assert(q@ =~= seq!["tempfile.mktemp"]);
    v.push(StaticEntry { name: "mktemp_q", id: "B306", cwe: Cwe(377), qualnames: q, message: "Use of insecure and deprecated function (mktemp).", level: "MEDIUM" });
    let q = vec!["eval"];
    assert(q@ =~= seq!["eval"]);
    v.push(StaticEntry { name: "eval", id: "B307", cwe: Cwe(78), qualnames: q, message: "Use of possibly insecure function - consider using safer ast.literal_eval.", level: "MEDIUM" });
    let q = vec!["django.utils.safestring.mark_safe"];
    assert(q@ =~= seq!["django.utils.safestring.mark_safe"]);
    v.push(StaticEntry { name: "mark_safe", id: "B308", cwe: Cwe(79), qualnames: q, message: "Use of mark_safe() may expose cross-site scripting vulnerabilities and should be reviewed.", level: "MEDIUM" });
    let q = vec!["urllib.request.urlopen", "urllib.request.urlretrieve", "urllib.request.URLopener", "urllib.request.FancyURLopener", "six.moves.urllib.request.urlopen", "six.moves.urllib.request.urlretrieve", "six.moves.urllib.request.URLopener", "six.moves.urllib.request.FancyURLopener"];
    assert(q@ =~= seq!["urllib.request.urlopen", "urllib.request.urlretrieve", "urllib.request.URLopener", "urllib.request.FancyURLopener", "six.moves.urllib.request.urlopen", "six.moves.urllib.request.urlretrieve", "six.moves.urllib.request.URLopener", "six.moves.urllib.request.FancyURLopener"]);
    v.push(StaticEntry { name: "urllib_urlopen", id: "B310", cwe: Cwe(22), qualnames: q, message: "Audit url open for permitted schemes. Allowing use of file:/ or custom schemes is often unexpected.", level: "MEDIUM" });
    let q = vec!["random.Random", "random.random", "random.randrange", "random.randint", "random.choice", "random.choices", "random.uniform", "random.triangular", "random.randbytes", "random.sample", "random.randrange", "random.getrandbits"];
    assert(q@ =~= seq!["random.Random", "random.random", "random.randrange", "random.randint", "random.choice", "random.choices", "random.uniform", "random.triangular", "random.randbytes", "random.sample", "random.randrange", "random.getrandbits"]);
    v.push(StaticEntry { name: "random", id: "B311", cwe: Cwe(330), qualnames: q, message: "Standard pseudo-random generators are not suitable for security/cryptographic purposes.", level: "LOW" });
    let q = vec!["telnetlib.Telnet"];
    assert(q@ =~= seq!["telnetlib.Telnet"]);
    v.push(StaticEntry { name: "telnetlib", id: "B312", cwe: Cwe(319), qualnames: q, message: "Telnet-related functions are being called. Telnet is considered insecure. Use SSH or some other encrypted protocol.", level: "HIGH" });
    let q = vec!["xml.etree.cElementTree.parse", "xml.etree.cElementTree.iterparse", "xml.etree.cElementTree.fromstring", "xml.etree.cElementTree.XMLParser"];
    assert(q@ =~= seq!["xml.etree.cElementTree.parse", "xml.etree.cElementTree.iterparse", "xml.etree.cElementTree.fromstring", "xml.etree.cElementTree.XMLParser"]);
    v.push(StaticEntry { name: "xml_bad_cElementTree", id: "B313", cwe: Cwe(20), qualnames: q, message: "Using {name} to parse untrusted XML data is known to be vulnerable to XML attacks. Replace {name} with its defusedxml equivalent function or make sure defusedxml.defuse_stdlib() is called", level: "MEDIUM" });
    let q = vec!["xml.etree.ElementTree.parse", "xml.etree.ElementTree.iterparse", "xml.etree.ElementTree.fromstring", "xml.etree.ElementTree.XMLParser"];
    assert(q@ =~= seq!["xml.etree.ElementTree.parse", "xml.etree.ElementTree.iterparse", "xml.etree.ElementTree.fromstring", "xml.etree.ElementTree.XMLParser"]);
    v.push(StaticEntry { name: "xml_bad_ElementTree", id: "B314", cwe: Cwe(20), qualnames: q, message: "Using {name} to parse untrusted XML data is known to be vulnerable to XML attacks. Replace {name} with its defusedxml equivalent function or make sure defusedxml.defuse_stdlib() is called", level: "MEDIUM" });
    let q = vec!["xml.sax.expatreader.create_parser"];
    assert(q@ =~= seq!["xml.sax.expatreader.create_parser"]);
    v.push(StaticEntry { name: "xml_bad_expatreader", id: "B315", cwe: Cwe(20), qualnames: q, message: "Using {name} to parse untrusted XML data is known to be vulnerable to XML attacks. Replace {name} with its defusedxml equivalent function or make sure defusedxml.defuse_stdlib() is called", level: "MEDIUM" });
    let q = vec!["xml.dom.expatbuilder.parse", "xml.dom.expatbuilder.parseString"];
    assert(q@ =~= seq!["xml.dom.expatbuilder.parse", "xml.dom.expatbuilder.parseString"]);
    v.push(StaticEntry { name: "xml_bad_expatbuilder", id: "B316", cwe: Cwe(20), qualnames: q, message: "Using {name} to parse untrusted XML data is known to be vulnerable to XML attacks. Replace {name} with its defusedxml equivalent function or make sure defusedxml.defuse_stdlib() is called", level: "MEDIUM" });
    let q = vec!["xml.sax.parse", "xml.sax.parseString", "xml.sax.make_parser"];
    assert(q@ =~= seq!["xml.sax.parse", "xml.sax.parseString", "xml.sax.make_parser"]);
    v.push(StaticEntry { name: "xml_bad_sax", id: "B317", cwe: Cwe(20), qualnames: q, message: "Using {name} to parse untrusted XML data is known to be vulnerable to XML attacks. Replace {name} with its defusedxml equivalent function or make sure defusedxml.defuse_stdlib() is called", level: "MEDIUM" });
    let q = vec!["xml.dom.minidom.parse", "xml.dom.minidom.parseString"];
    assert(q@ =~= seq!["xml.dom.minidom.parse", "xml.dom.minidom.parseString"]);
    v.push(StaticEntry { name: "xml_bad_minidom", id: "B318", cwe: Cwe(20), qualnames: q, message: "Using {name} to parse untrusted XML data is known to be vulnerable to XML attacks. Replace {name} with its defusedxml equivalent function or make sure defusedxml.defuse_stdlib() is called", level: "MEDIUM" });
    let q = vec!["xml.dom.pulldom.parse", "xml.dom.pulldom.parseString"];
    assert(q@ =~= seq!["xml.dom.pulldom.parse", "xml.dom.pulldom.parseString"]);
    v.push(StaticEntry { name: "xml_bad_pulldom", id: "B319", cwe: Cwe(20), qualnames: q, message: "Using {name} to parse untrusted XML data is known to be vulnerable to XML attacks. Replace {name} with its defusedxml equivalent function or make sure defusedxml.defuse_stdlib() is called", level: "MEDIUM" });
    let q = vec!["ftplib.FTP"];
    assert(q@ =~= seq!["ftplib.FTP"]);
    v.push(StaticEntry { name: "ftplib", id: "B321", cwe: Cwe(319), qualnames: q, message: "FTP-related functions are being called. FTP is considered insecure. Use SSH/SFTP/SCP or some other encrypted protocol.", level: "HIGH" });
    let q = vec!["ssl._create_unverified_context"];
    assert(q@ =~= seq!["ssl._create_unverified_context"]);
    v.push(StaticEntry { name: "unverified_context", id: "B323", cwe: Cwe(295), qualnames: q, message: "By default, Python will create a secure, verified ssl context for use in such classes as HTTPSConnection. However, it still allows using an insecure context via the _create_unverified_context that  reverts to the previous behavior that does not validate certificates or perform hostname checks.", level: "MEDIUM" });
    assert(static_views(v@) =~= call_entries());
    v
}

/// The import blacklist, in list order.
#[verifier::rlimit(50)]
pub fn blacklist_imports() -> (r: Vec<StaticEntry>)
    ensures
        static_views(r@) == import_entries(),
{
    let mut v: Vec<StaticEntry> = Vec::new();
    let q = vec!["telnetlib"];
    assert(q@ =~= seq!["telnetlib"]);
    v.push(StaticEntry { name: "import_telnetlib", id: "B401", cwe: Cwe(319), qualnames: q, message: "A telnet-related module is being imported.  Telnet is considered insecure. Use SSH or some other encrypted protocol.", level: "HIGH" });
    let q = vec!["ftplib"];
    assert(q@ =~= seq!["ftplib"]);
    v.push(StaticEntry { name: "import_ftplib", id: "B402", cwe: Cwe(319), qualnames: q, message: "A FTP-related module is being imported.  FTP is considered insecure. Use SSH/SFTP/SCP or some other encrypted protocol.", level: "HIGH" });
    let q = vec!["pickle", "cPickle", "dill", "shelve"];
    assert(q@ =~= seq!["pickle", "cPickle", "dill", "shelve"]);
    v.push(StaticEntry { name: "import_pickle", id: "B403", cwe: Cwe(502), qualnames: q, message: "Consider possible security implications associated with {name} module.", level: "LOW" });
    let q = vec!["subprocess"];
    assert(q@ =~= seq!["subprocess"]);
    v.push(StaticEntry { name: "import_subprocess", id: "B404", cwe: Cwe(78), qualnames: q, message: "Consider possible security implications associated with the subprocess module.", level: "LOW" });
    let q = vec!["xml.etree.cElementTree", "xml.etree.ElementTree"];
    assert(q@ =~= seq!["xml.etree.cElementTree", "xml.etree.ElementTree"]);
    v.push(StaticEntry { name: "import_xml_etree", id: "B405", cwe: Cwe(20), qualnames: q, message: "Using {name} to parse untrusted XML data is known to be vulnerable to XML attacks. Replace {name} with the equivalent defusedxml package, or make sure defusedxml.defuse_stdlib() is called.", level: "LOW" });
    let q = vec!["xml.sax"];
    assert(q@ =~= seq!["xml.sax"]);
    v.push(StaticEntry { name: "import_xml_sax", id: "B406", cwe: Cwe(20), qualnames: q, message: "Using {name} to parse untrusted XML data is known to be vulnerable to XML attacks. Replace {name} with the equivalent defusedxml package, or make sure defusedxml.defuse_stdlib() is called.", level: "LOW" });
    let q = vec!["xml.dom.expatbuilder"];
    assert(q@ =~= seq!["xml.dom.expatbuilder"]);
    v.push(StaticEntry { name: "import_xml_expat", id: "B407", cwe: Cwe(20), qualnames: q, message: "Using {name} to parse untrusted XML data is known to be vulnerable to XML attacks. Replace {name} with the equivalent defusedxml package, or make sure defusedxml.defuse_stdlib() is called.", level: "LOW" });
    let q = vec!["xml.dom.minidom"];
    assert(q@ =~= seq!["xml.dom.minidom"]);
    v.push(StaticEntry { name: "import_xml_minidom", id: "B408", cwe: Cwe(20), qualnames: q, message: "Using {name} to parse untrusted XML data is known to be vulnerable to XML attacks. Replace {name} with the equivalent defusedxml package, or make sure defusedxml.defuse_stdlib() is called.", level: "LOW" });
    let q = vec!["xml.dom.pulldom"];
    assert(q@ =~= seq!["xml.dom.pulldom"]);
    v.push(StaticEntry { name: "import_xml_pulldom", id: "B409", cwe: Cwe(20), qualnames: q, message: "Using {name} to parse untrusted XML data is known to be vulnerable to XML attacks. Replace {name} with the equivalent defusedxml package, or make sure defusedxml.defuse_stdlib() is called.", level: "LOW" });
    let q = vec!["xmlrpc"];
    assert(q@ =~= seq!["xmlrpc"]);
    v.push(StaticEntry { name: "import_xmlrpclib", id: "B411", cwe: Cwe(20), qualnames: q, message: "Using {name} to parse untrusted XML data is known to be vulnerable to XML attacks. Use defusedxml.xmlrpc.monkey_patch() function to monkey-patch xmlrpclib and mitigate XML vulnerabilities.", level: "HIGH" });
    let q = vec!["wsgiref.handlers.CGIHandler", "twisted.web.twcgi.CGIScript", "twisted.web.twcgi.CGIDirectory"];
    assert(q@ =~= seq!["wsgiref.handlers.CGIHandler", "twisted.web.twcgi.CGIScript", "twisted.web.twcgi.CGIDirectory"]);
    v.push(StaticEntry { name: "import_httpoxy", id: "B412", cwe: Cwe(284), qualnames: q, message: "Consider possible security implications associated with {name} module.", level: "HIGH" });
    let q = vec!["Crypto.Cipher", "Crypto.Hash", "Crypto.IO", "Crypto.Protocol", "Crypto.PublicKey", "Crypto.Random", "Crypto.Signature", "Crypto.Util"];
    assert(q@ =~= seq!["Crypto.Cipher", "Crypto.Hash", "Crypto.IO", "Crypto.Protocol", "Crypto.PublicKey", "Crypto.Random", "Crypto.Signature", "Crypto.Util"]);
    v.push(StaticEntry { name: "import_pycrypto", id: "B413", cwe: Cwe(327), qualnames: q, message: "The pyCrypto library and its module {name} are no longer actively maintained and have been deprecated. Consider using pyca/cryptography library.", level: "HIGH" });
    let q = vec!["pyghmi"];
    assert(q@ =~= seq!["pyghmi"]);
    v.push(StaticEntry { name: "import_pyghmi", id: "B415", cwe: Cwe(319), qualnames: q, message: "An IPMI-related module is being imported. IPMI is considered insecure. Use an encrypted protocol.", level: "HIGH" });
    assert(static_views(v@) =~= import_entries());
    v
}

/// Every built-in entry: the `Call` list, then the import list.
pub open spec fn all_entry_models() -> Seq<EntryModel> {
    call_entries() + import_entries()
}

/// Every built-in entry: the `Call` list, then the import list.
pub fn all_entries() -> (r: Vec<StaticEntry>)
    ensures
        static_views(r@) == all_entry_models(),
{
    let mut v = blacklist_calls();
    let mut w = blacklist_imports();
    let ghost a = v@;
    let ghost b = w@;
    v.append(&mut w);
    assert(v@ =~= a + b);
    assert(static_views(v@) =~= static_views(a) + static_views(b));
    v
}

/// Position of the first model at or after `j` satisfying `p`.
pub open spec fn first_match(s: Seq<EntryModel>, p: spec_fn(EntryModel) -> bool, j: int) -> Option<int>
    decreases s.len() - j,
{
    if j < 0 || j >= s.len() {
        None
    } else if p(s[j]) {
        Some(j)
    } else {
        first_match(s, p, j + 1)
    }
}

/// A found position is in range, satisfies `p`, and nothing before it from
/// `j` on does.
pub proof fn lemma_first_match(s: Seq<EntryModel>, p: spec_fn(EntryModel) -> bool, j: int)
    requires
        0 <= j,
    ensures
        match first_match(s, p, j) {
            Some(i) => j <= i < s.len() && p(s[i]) && forall|k: int| j <= k < i ==> !p(s[k]),
            None => forall|k: int| j <= k < s.len() ==> !p(s[k]),
        },
    decreases s.len() - j,
{
    if j < s.len() && !p(s[j]) {
        lemma_first_match(s, p, j + 1);
    }
}

/// The predicate "has id `id`".
pub open spec fn id_is(id: Seq<char>) -> spec_fn(EntryModel) -> bool {
    |m: EntryModel| m.id == id
}

/// The predicate "is called `name`".
pub open spec fn name_is(name: Seq<char>) -> spec_fn(EntryModel) -> bool {
    |m: EntryModel| m.name == name
}

/// The first built-in entry with id `id` (`blacklist_by_id`).
pub open spec fn entry_with_id(id: Seq<char>) -> Option<EntryModel> {
    match first_match(all_entry_models(), id_is(id), 0) {
        Some(i) => Some(all_entry_models()[i]),
        None => None,
    }
}

/// The first built-in entry called `name` (`blacklist_by_name`).
pub open spec fn entry_with_name(name: Seq<char>) -> Option<EntryModel> {
    match first_match(all_entry_models(), name_is(name), 0) {
        Some(i) => Some(all_entry_models()[i]),
        None => None,
    }
}

/// The first built-in entry with the given id.
pub fn entry_by_id(id: &str) -> (r: Option<StaticEntry>)
    ensures
        match r {
            Some(e) => entry_with_id(id@) == Some(static_view(e)),
            None => entry_with_id(id@) is None,
        },
{
    let all = all_entries();
    let ghost models = all_entry_models();
    let ghost p = id_is(id@);
    let mut i: usize = 0;
    while i < all.len()
        invariant
            static_views(all@) == models,
            models == all_entry_models(),
            i <= all@.len(),
            first_match(models, p, 0) == first_match(models, p, i as int),
            p == id_is(id@),
        decreases all@.len() - i,
    {
        assert(static_view(all@[i as int]) == models[i as int]);
        if str_eq(all[i].id, id) {
            return Some(all[i].clone_entry());
        }
        i = i + 1;
    }
    None
}

/// The first built-in entry with the given name.
pub fn entry_by_name(name: &str) -> (r: Option<StaticEntry>)
    ensures
        match r {
            Some(e) => entry_with_name(name@) == Some(static_view(e)),
            None => entry_with_name(name@) is None,
        },
{
    let all = all_entries();
    let ghost models = all_entry_models();
    let ghost p = name_is(name@);
    let mut i: usize = 0;
    while i < all.len()
        invariant
            static_views(all@) == models,
            models == all_entry_models(),
            i <= all@.len(),
            first_match(models, p, 0) == first_match(models, p, i as int),
            p == name_is(name@),
        decreases all@.len() - i,
    {
        assert(static_view(all@[i as int]) == models[i as int]);
        if str_eq(all[i].name, name) {
            return Some(all[i].clone_entry());
        }
        i = i + 1;
    }
    None
}

impl StaticEntry {
    /// A copy of the entry.
    pub fn clone_entry(&self) -> (r: StaticEntry)
        ensures
            static_view(r) == static_view(*self),
    {
        let mut q: Vec<&'static str> = Vec::new();
        let mut i: usize = 0;
        while i < self.qualnames.len()
            invariant
                i <= self.qualnames@.len(),
                q@ =~= self.qualnames@.subrange(0, i as int),
            decreases self.qualnames@.len() - i,
        {
            q.push(self.qualnames[i]);
            i = i + 1;
        }
        assert(q@ =~= self.qualnames@);
        StaticEntry {
            name: self.name,
            id: self.id,
            cwe: self.cwe,
            qualnames: q,
            message: self.message,
            level: self.level,
        }
    }
}

impl BlacklistEntry {
    /// A copy of the entry.
    pub fn copy(&self) -> (r: BlacklistEntry)
        ensures
            entry_view(r) == entry_view(*self),
    {
        let q = copy_strings(&self.qualnames);
        assert(string_views(q@) =~= views_of(q@));
        assert(string_views(self.qualnames@) =~= views_of(self.qualnames@));
        BlacklistEntry {
            name: copy_string(&self.name),
            id: copy_string(&self.id),
            cwe: self.cwe,
            qualnames: q,
            message: copy_string(&self.message),
            level: copy_string(&self.level),
        }
    }
}

/// The entries of `s` whose id is in `ids`, in order.
pub open spec fn kept(s: Seq<EntryModel>, ids: Seq<Seq<char>>) -> Seq<EntryModel>
    decreases s.len(),
{
    if s.len() == 0 {
        Seq::empty()
    } else {
        kept(s.drop_last(), ids) + (if ids.contains(s.last().id) { seq![s.last()] } else { Seq::empty() })
    }
}

/// The predicate "has `name` among its qualified names".
pub open spec fn has_qualname(name: Seq<char>) -> spec_fn(EntryModel) -> bool {
    |m: EntryModel| m.qualnames.contains(name)
}

/// The blacklist entries enabled for a run, per node type.
#[derive(Debug, Clone)]
pub struct BlacklistTable {
    pub call: Vec<BlacklistEntry>,
    pub import: Vec<BlacklistEntry>,
    pub import_from: Vec<BlacklistEntry>,
}

fn owned_entries(v: &Vec<StaticEntry>) -> (r: Vec<BlacklistEntry>)
    ensures
        entry_views(r@) == static_views(v@),
{
    let mut out: Vec<BlacklistEntry> = Vec::new();
    let mut i: usize = 0;
    while i < v.len()
        invariant
            i <= v@.len(),
            entry_views(out@) =~= static_views(v@).subrange(0, i as int),
        decreases v@.len() - i,
    {
        let e = v[i].to_entry();
        let ghost before = out@;
        out.push(e);
        assert(entry_views(out@) =~= entry_views(before).push(entry_view(e)));
        i = i + 1;
    }
    assert(entry_views(out@) =~= static_views(v@));
    out
}

fn keep_entries(v: &Vec<BlacklistEntry>, ids: &Vec<String>) -> (r: Vec<BlacklistEntry>)
    ensures
        entry_views(r@) == kept(entry_views(v@), views_of(ids@)),
{
    let mut out: Vec<BlacklistEntry> = Vec::new();
    let mut i: usize = 0;
    while i < v.len()
        invariant
            i <= v@.len(),
            entry_views(out@) =~= kept(entry_views(v@).subrange(0, i as int), views_of(ids@)),
        decreases v@.len() - i,
    {
        let ghost s = entry_views(v@).subrange(0, i + 1);
        assert(s.drop_last() =~= entry_views(v@).subrange(0, i as int));
        assert(s.last() == entry_view(v@[i as int]));
        if contains_string(ids, v[i].id.as_str()) {
            let e = v[i].copy();
            let ghost before = out@;
            out.push(e);
            assert(entry_views(out@) =~= entry_views(before).push(entry_view(e)));
        }
        i = i + 1;
        assert(entry_views(out@) =~= kept(s, views_of(ids@)));
    }
    assert(entry_views(v@).subrange(0, v@.len() as int) =~= entry_views(v@));
    out
}

impl BlacklistTable {
    /// The full built-in table: calls are checked against every entry,
    /// imports against the import entries.
    pub fn builtin() -> (r: BlacklistTable)
        ensures
            entry_views(r.call@) == call_entries() + import_entries(),
            entry_views(r.import@) == import_entries(),
            entry_views(r.import_from@) == import_entries(),
    {
        let imports = blacklist_imports();
        let all = all_entries();
        BlacklistTable {
            call: owned_entries(&all),
            import: owned_entries(&imports),
            import_from: owned_entries(&imports),
        }
    }

    /// The entries whose id is in `ids`, in order, per node type.
    pub fn filtered(&self, ids: &Vec<String>) -> (r: BlacklistTable)
        ensures
            entry_views(r.call@) == kept(entry_views(self.call@), views_of(ids@)),
            entry_views(r.import@) == kept(entry_views(self.import@), views_of(ids@)),
            entry_views(r.import_from@) == kept(entry_views(self.import_from@), views_of(ids@)),
    {
        BlacklistTable {
            call: keep_entries(&self.call, ids),
            import: keep_entries(&self.import, ids),
            import_from: keep_entries(&self.import_from, ids),
        }
    }

    /// Whether no node type has an entry.
    pub fn is_empty(&self) -> (r: bool)
        ensures
            r == (self.call@.len() == 0 && self.import@.len() == 0 && self.import_from@.len() == 0),
    {
        self.call.len() == 0 && self.import.len() == 0 && self.import_from.len() == 0
    }

    /// The first `Call` entry one of whose qualified names is `name`.
    pub fn find_call(&self, name: &str) -> (r: Option<&BlacklistEntry>)
        ensures
            match first_match(entry_views(self.call@), has_qualname(name@), 0) {
                Some(i) => r is Some && entry_view(*r.unwrap()) == entry_views(self.call@)[i],
                None => r is None,
            },
    {
        let ghost models = entry_views(self.call@);
        let ghost p = has_qualname(name@);
        let mut i: usize = 0;
        while i < self.call.len()
            invariant
                models == entry_views(self.call@),
                p == has_qualname(name@),
                i <= self.call@.len(),
                first_match(models, p, 0) == first_match(models, p, i as int),
            decreases self.call@.len() - i,
        {
            assert(models[i as int] == entry_view(self.call@[i as int]));
            let found = contains_string(&self.call[i].qualnames, name);
            assert(views_of(self.call@[i as int].qualnames@) =~= string_views(self.call@[i as int].qualnames@));
            if found {
                return Some(&self.call[i]);
            }
            i = i + 1;
        }
        None
    }
}

/// An entry reports its issues at the rank its level names (`LOW` gives
/// a low-severity issue, and so on); only a level that names no rank
/// gives MEDIUM.
pub proof fn lemma_entry_severity_is_level(level: Seq<char>, r: Rank)
    ensures
        level == crate::constants::rank_name(r) ==> entry_severity(level) == r,
        (forall|q: Rank| level != #[trigger] crate::constants::rank_name(q)) ==> entry_severity(level) == Rank::Medium,
{
    reveal_strlit("UNDEFINED");
    reveal_strlit("LOW");
    reveal_strlit("MEDIUM");
    reveal_strlit("HIGH");
    if level == crate::constants::rank_name(r) {
        match r {
            Rank::Undefined => {},
            Rank::Low => {
                assert(level != "UNDEFINED"@) by { assert(level.len() != "UNDEFINED"@.len()); }
            },
            Rank::Medium => {
                assert(level != "UNDEFINED"@) by { assert(level.len() != "UNDEFINED"@.len()); }
                assert(level != "LOW"@) by { assert(level.len() != "LOW"@.len()); }
            },
            Rank::High => {
                assert(level != "UNDEFINED"@) by { assert(level.len() != "UNDEFINED"@.len()); }
                assert(level != "LOW"@) by { assert(level[0] != "LOW"@[0]); }
                assert(level != "MEDIUM"@) by { assert(level.len() != "MEDIUM"@.len()); }
            },
        }
    }
    if forall|q: Rank| level != #[trigger] crate::constants::rank_name(q) {
        assert(level != crate::constants::rank_name(Rank::Undefined));
        assert(level != crate::constants::rank_name(Rank::Low));
        assert(level != crate::constants::rank_name(Rank::Medium));
        assert(level != crate::constants::rank_name(Rank::High));
    }
}

/// The entry found for a called name lists that name among its qualified
/// names, and no entry before it does; none is found only when no entry
/// lists the name.
pub proof fn lemma_found_entry_lists_name(s: Seq<EntryModel>, name: Seq<char>)
    ensures
        match first_match(s, has_qualname(name), 0) {
            Some(i) => 0 <= i < s.len() && s[i].qualnames.contains(name) && forall|k: int|
                0 <= k < i ==> !(#[trigger] s[k]).qualnames.contains(name),
            None => forall|k: int| 0 <= k < s.len() ==> !(#[trigger] s[k]).qualnames.contains(name),
        },
{
    lemma_first_match(s, has_qualname(name), 0);
}

/// Keeping the entries of some ids keeps exactly the entries with one of
/// those ids, each an entry of the table.
pub proof fn lemma_kept_entries(s: Seq<EntryModel>, ids: Seq<Seq<char>>)
    ensures
        forall|k: int| 0 <= k < kept(s, ids).len() ==> ids.contains(#[trigger] kept(s, ids)[k].id) && s.contains(
            kept(s, ids)[k],
        ),
        forall|k: int| 0 <= k < s.len() && ids.contains(#[trigger] s[k].id) ==> kept(s, ids).contains(s[k]),
    decreases s.len(),
{
    if s.len() > 0 {
        let d = s.drop_last();
        lemma_kept_entries(d, ids);
        let kd = kept(d, ids);
        let ks = kept(s, ids);
        assert forall|k: int| 0 <= k < ks.len() implies ids.contains(#[trigger] ks[k].id) && s.contains(ks[k]) by {
            if k < kd.len() {
                assert(ks[k] == kd[k]);
                assert(0 <= k < kd.len());
                assert(ids.contains(kd[k].id));
                assert(d.contains(kd[k]));
                let j = choose|j: int| 0 <= j < d.len() && d[j] == kd[k];
                assert(s[j] == d[j]);
            } else {
                assert(ks[k] == s.last());
                assert(s[s.len() - 1] == s.last());
            }
        }
        assert forall|k: int| 0 <= k < s.len() && ids.contains(#[trigger] s[k].id) implies ks.contains(s[k]) by {
            if k < d.len() {
                assert(d[k] == s[k]);
                assert(kd.contains(d[k]));
                let j = choose|j: int| 0 <= j < kd.len() && kd[j] == d[k];
                assert(ks[j] == kd[j]);
            } else {
                assert(ks[ks.len() - 1] == s.last());
            }
        }
    }
}

} // verus!
