use vstd::prelude::*;
use vstd::string::*;

use crate::config::json_document;
use crate::http_status_code::HTTPStatusCode;
use crate::limb::{
    built_from, spec_config_error_message, spec_error_message, ConfigError, Error, Limb,
    LimbBindings, LimbFactory, LimbTypes,
};
use crate::response_data::ResponseData;
use crate::text::{escape_text, escaped, path_segments, same_text, spec_path_segments};

verus! {

/// The request methods that the server tells apart.
#[derive(Clone, Copy, Debug, PartialEq, Eq, Structural)]
pub enum Method {
    Get,
    Post,
    Other,
}

/// One line per name, each ended by a newline.
pub open spec fn type_listing(names: Seq<Seq<char>>) -> Seq<char>
    decreases names.len(),
{
    if names.len() == 0 {
        Seq::empty()
    } else {
        type_listing(names.drop_last()) + names.last() + "\n"@
    }
}

/// One line per limb: its (escaped) name in quotes, a colon and its type name.
pub open spec fn spec_limb_listing(entries: Seq<(Seq<char>, Seq<char>)>) -> Seq<char>
    decreases entries.len(),
{
    if entries.len() == 0 {
        Seq::empty()
    } else {
        spec_limb_listing(entries.drop_last()) + "\""@ + entries.last().0 + "\": "@
            + entries.last().1 + "\n"@
    }
}

/// The listing of limbs with these names, escaped, and these type names.
pub open spec fn escaped_listing(names: Seq<Seq<char>>, kinds: Seq<Seq<char>>) -> Seq<char> {
    spec_limb_listing(Seq::new(names.len(), |i: int| (escaped(names[i]), kinds[i])))
}

/// The response owed to a read of a limb that returned `result`.
pub open spec fn spec_get_response(r: ResponseData, result: Result<String, Error>) -> bool {
    match result {
        Ok(value) => r.code == HTTPStatusCode::OK && r.content@ == value@,
        Err(e) => r.code == HTTPStatusCode::BadRequest && r.content@ == spec_error_message(e),
    }
}

/// The response owed to a write of a limb that returned `result`.
pub open spec fn spec_set_response(r: ResponseData, result: Result<(), Error>) -> bool {
    match result {
        Ok(_) => r.code == HTTPStatusCode::OK && r.content@ == "Limb successfully updated."@,
        Err(e) => r.code == HTTPStatusCode::BadRequest && r.content@ == spec_error_message(e),
    }
}

/// The response to a request on a bound limb, and what became of that limb: a read
/// or a write of it answered from what it returned, or the limb left as it was.
pub open spec fn spec_limb_exchange<L: Limb>(
    before: L,
    after: L,
    r: ResponseData,
    method: Method,
    body: Option<String>,
) -> bool {
    match method {
        Method::Get => exists|result: Result<String, Error>|
            #[trigger] before.reads_as(after, result) && spec_get_response(r, result),
        Method::Post => match body {
            None => after == before && r.code == HTTPStatusCode::BadRequest
                && r.content@ == "Failed to read request"@,
            Some(value) => exists|result: Result<(), Error>|
                #[trigger] before.writes_as(value, after, result) && spec_set_response(r, result),
        },
        Method::Other => after == before && r.code == HTTPStatusCode::MethodNotAllowed
            && r.content@ == "Allowed: GET, POST"@,
    }
}

/// The limb under `name` took part in `exchange` and no other limb changed.
pub open spec fn spec_limb_request<L: Limb>(
    before: LimbBindings<L>,
    after: LimbBindings<L>,
    name: Seq<char>,
    r: ResponseData,
    method: Method,
    body: Option<String>,
) -> bool {
    &&& after@ == before@
    &&& after.bound().len() == before.bound().len()
    &&& forall|i: int| 0 <= i < before@.len() && before@[i] != name
        ==> #[trigger] after.bound()[i] == before.bound()[i]
    &&& forall|i: int| 0 <= i < before@.len() && before@[i] == name
        ==> spec_limb_exchange(before.bound()[i], #[trigger] after.bound()[i], r, method, body)
}

/// What building a table from the text `json` gave.
pub open spec fn build_outcome<F: LimbFactory>(
    json: Seq<char>,
    types: LimbTypes<F>,
    built: Result<LimbBindings<F::Output>, ConfigError>,
) -> bool {
    match json_document(json) {
        None => built == Err::<LimbBindings<F::Output>, ConfigError>(ConfigError::MalformedDocument),
        Some(doc) => built_from(doc, types, built),
    }
}

/// A reconfiguration with the text `json`: the table built from it installed whole
/// with the success message, or the old table kept with the error's message.
pub open spec fn spec_reconfigured<F: LimbFactory>(
    json: Seq<char>,
    types: LimbTypes<F>,
    before: LimbBindings<F::Output>,
    after: LimbBindings<F::Output>,
    r: ResponseData,
) -> bool {
    exists|built: Result<LimbBindings<F::Output>, ConfigError>|
        #[trigger] build_outcome(json, types, built) && match built {
            Ok(table) => after == table && r.code == HTTPStatusCode::OK
                && r.content@ == "Configuration completed successfullly."@,
            Err(e) => after == before && r.code == HTTPStatusCode::BadRequest
                && r.content@ == spec_config_error_message(e),
        }
}

/// The server's state: the registry of limb types and the table of live limbs.
pub struct PHALServer<F: LimbFactory> {
    pub types: LimbTypes<F>,
    pub limbs: LimbBindings<F::Output>,
}

impl<F: LimbFactory> PHALServer<F> {
    /// A server with the given limb types and no limbs.
    pub fn new(types: LimbTypes<F>) -> (r: Self)
        ensures
            r.types == types,
            r.limbs@ == Seq::<Seq<char>>::empty(),
    {
        PHALServer { types, limbs: LimbBindings::new() }
    }

    /// The response to a read of a limb that returned `result`.
    pub fn handle_limb_get_request(result: Result<String, Error>) -> (r: ResponseData)
        ensures
            spec_get_response(r, result),
    {
        match result {
            Ok(value) => ResponseData::ok(value.as_str()),
            Err(error) => ResponseData::bad_request(error.message()),
        }
    }

    /// The response to a write of a limb that returned `result`.
    pub fn set_limb_value(result: Result<(), Error>) -> (r: ResponseData)
        ensures
            spec_set_response(r, result),
    {
        match result {
            Ok(_) => ResponseData::ok("Limb successfully updated."),
            Err(error) => ResponseData::bad_request(error.message()),
        }
    }

    /// Serves a request on the limb under `name`, which is bound.
    fn handle_limb_request(&mut self, name: &str, method: Method, body: Option<String>) -> (r: ResponseData)
        requires
            old(self).limbs@.contains(name@),
        ensures
            final(self).types == old(self).types,
            spec_limb_request(old(self).limbs, final(self).limbs, name@, r, method, body),
            (method is Other || body is None) && !(method is Get) ==> final(self).limbs == old(self).limbs,
    {
        match method {
            Method::Get => match self.limbs.get_value(name) {
                Some(result) => Self::handle_limb_get_request(result),
                None => ResponseData::limb_not_found(),
            },
            Method::Post => match body {
                Some(value) => match self.limbs.set_value(name, value) {
                    Some(result) => Self::set_limb_value(result),
                    None => ResponseData::limb_not_found(),
                },
                None => ResponseData::bad_request("Failed to read request"),
            },
            Method::Other => ResponseData::method_not_allowed("Allowed: GET, POST"),
        }
    }

    /// Replaces the table of limbs by the one that `config` describes; on any failure
    /// the table stays as it was.
    pub fn update_limb_configuration(&mut self, config: &str) -> (r: ResponseData)
        ensures
            final(self).types == old(self).types,
            spec_reconfigured(config@, old(self).types, old(self).limbs, final(self).limbs, r),
    {
        let built = LimbBindings::from_json(config, &self.types);
        proof {
            assert(build_outcome(config@, self.types, built));
        }
        match built {
            Ok(new_limbs) => {
                self.limbs = new_limbs;
                ResponseData::configure_success()
            },
            Err(error) => ResponseData::bad_request(error.message()),
        }
    }

    /// The registered type names, one per line.
    pub fn handle_info_types_request(&self) -> (r: ResponseData)
        ensures
            r.code == HTTPStatusCode::OK,
            r.content@ == type_listing(self.types@),
    {
        let names = self.types.names();
        let mut content = String::new();
        let mut i: usize = 0;
        while i < names.len()
            invariant
                i <= names@.len(),
                crate::text::views(names@) == self.types@,
                content@ == type_listing(self.types@.take(i as int)),
            decreases names@.len() - i,
        {
            proof {
                assert(self.types@.take(i + 1).drop_last() =~= self.types@.take(i as int));
                assert(self.types@[i as int] == names@[i as int]@);
            }
            content.append(names[i].as_str());
            content.append("\n");
            i += 1;
        }
        proof {
            assert(self.types@.take(i as int) =~= self.types@);
        }
        ResponseData::ok(content.as_str())
    }

    /// The listing of limbs, each given by its name, already escaped, and its type name.
    pub fn limb_listing(entries: &Vec<(String, &'static str)>) -> (r: String)
        ensures
            r@ == spec_limb_listing(entries@.map_values(|e: (String, &'static str)| (e.0@, e.1@))),
    {
        let ghost all = entries@.map_values(|e: (String, &'static str)| (e.0@, e.1@));
        let mut content = String::new();
        let mut i: usize = 0;
        while i < entries.len()
            invariant
                i <= entries@.len(),
                all == entries@.map_values(|e: (String, &'static str)| (e.0@, e.1@)),
                content@ == spec_limb_listing(all.take(i as int)),
            decreases entries@.len() - i,
        {
            proof {
                assert(all.take(i + 1).drop_last() =~= all.take(i as int));
            }
            content.append("\"");
            content.append(entries[i].0.as_str());
            content.append("\": ");
            content.append(entries[i].1);
            content.append("\n");
            i += 1;
        }
        proof {
            assert(all.take(i as int) =~= all);
        }
        content
    }

    /// The limbs with their type names, one per line, each name escaped.
    pub fn handle_info_limbs_request(&self) -> (r: ResponseData)
        ensures
            r.code == HTTPStatusCode::OK,
            exists|kinds: Seq<Seq<char>>|
                kinds.len() == self.limbs@.len() && r.content@ == #[trigger] escaped_listing(self.limbs@, kinds),
    {
        let named = self.limbs.kinds();
        let mut entries: Vec<(String, &'static str)> = Vec::new();
        let mut i: usize = 0;
        while i < named.len()
            invariant
                i <= named@.len(),
                named@.len() == self.limbs@.len(),
                forall|j: int| 0 <= j < named@.len() ==> (#[trigger] named@[j]).0@ == self.limbs@[j],
                entries@.len() == i,
                forall|j: int| 0 <= j < i ==> (#[trigger] entries@[j]).0@ == escaped(self.limbs@[j])
                    && entries@[j].1 == named@[j].1,
            decreases named@.len() - i,
        {
            let name = escape_text(named[i].0.as_str());
            entries.push((name, named[i].1));
            i += 1;
        }
        let content = Self::limb_listing(&entries);
        let ghost kinds = named@.map_values(|e: (String, &'static str)| e.1@);
        proof {
            assert(entries@.map_values(|e: (String, &'static str)| (e.0@, e.1@)) =~= Seq::new(
                self.limbs@.len(),
                |i: int| (escaped(self.limbs@[i]), kinds[i]),
            ));
            assert(content@ == escaped_listing(self.limbs@, kinds));
        }
        ResponseData::ok(content.as_str())
    }

    /// Serves one request: `method` and `url` as received, and `body` as read from the
    /// request, or nothing where reading it failed.
    pub fn handle_request(&mut self, method: Method, url: &str, body: Option<String>) -> (r: ResponseData)
        ensures
            final(self).types == old(self).types,
            ({
                let segments = spec_path_segments(url@);
                if segments.len() == 0 {
                    r.code == HTTPStatusCode::OK && r.content@ == "PHAL Server"@
                        && final(self).limbs == old(self).limbs
                } else if segments[0] == "limb"@ {
                    if segments.len() == 1 {
                        r.code == HTTPStatusCode::Forbidden && r.content@.len() == 0
                            && final(self).limbs == old(self).limbs
                    } else if !old(self).limbs@.contains(segments[1]) {
                        r.code == HTTPStatusCode::NotFound
                            && r.content@ == "That limb does not exist."@
                            && final(self).limbs == old(self).limbs
                    } else {
                        spec_limb_request(old(self).limbs, final(self).limbs, segments[1], r, method, body)
                    }
                } else if segments[0] == "config"@ {
                    match method {
                        Method::Get => r.code == HTTPStatusCode::NotImplemented
                            && r.content@ == "Configuration retrieval is not yet implemented."@
                            && final(self).limbs == old(self).limbs,
                        Method::Post => match body {
                            None => r.code == HTTPStatusCode::BadRequest
                                && r.content@ == "Failed to read request"@
                                && final(self).limbs == old(self).limbs,
                            Some(config) => spec_reconfigured(
                                config@,
                                old(self).types,
                                old(self).limbs,
                                final(self).limbs,
                                r,
                            ),
                        },
                        Method::Other => r.code == HTTPStatusCode::BadRequest
                            && r.content@ == "Allowed: GET, POST"@
                            && final(self).limbs == old(self).limbs,
                    }
                } else if segments[0] == "info"@ {
                    final(self).limbs == old(self).limbs && if segments.len() == 1 {
                        r.code == HTTPStatusCode::Forbidden && r.content@.len() == 0
                    } else if segments[1] == "types"@ {
                        r.code == HTTPStatusCode::OK && r.content@ == type_listing(old(self).types@)
                    } else if segments[1] == "limbs"@ {
                        r.code == HTTPStatusCode::OK && exists|kinds: Seq<Seq<char>>|
                            kinds.len() == old(self).limbs@.len()
                                && r.content@ == #[trigger] escaped_listing(old(self).limbs@, kinds)
                    } else {
                        r.code == HTTPStatusCode::NotFound && r.content@.len() == 0
                    }
                } else {
                    r.code == HTTPStatusCode::NotFound && r.content@.len() == 0
                        && final(self).limbs == old(self).limbs
                }
            }),
    {
        let segments = path_segments(url);
        proof {
            assert(segments@.len() > 0 ==> segments@[0]@ == spec_path_segments(url@)[0]);
            assert(segments@.len() > 1 ==> segments@[1]@ == spec_path_segments(url@)[1]);
        }
        if segments.len() == 0 {
            return ResponseData::site_index();
        }
        let first = segments[0].as_str();
        if same_text(first, "limb") {
            if segments.len() == 1 {
                return ResponseData::forbidden();
            }
            let name = segments[1].as_str();
            if !self.limbs.contains(name) {
                return ResponseData::limb_not_found();
            }
            self.handle_limb_request(name, method, body)
        } else if same_text(first, "config") {
            match method {
                Method::Get => ResponseData::not_implemented("Configuration retrieval is not yet implemented."),
                Method::Post => match body {
                    Some(config) => self.update_limb_configuration(config.as_str()),
                    None => ResponseData::bad_request("Failed to read request"),
                },
                Method::Other => ResponseData::bad_request("Allowed: GET, POST"),
            }
        } else if same_text(first, "info") {
            if segments.len() == 1 {
                return ResponseData::forbidden();
            }
            let second = segments[1].as_str();
            if same_text(second, "types") {
                self.handle_info_types_request()
            } else if same_text(second, "limbs") {
                self.handle_info_limbs_request()
            } else {
                ResponseData::not_found()
            }
        } else {
            ResponseData::not_found()
        }
    }
}

} // verus!
