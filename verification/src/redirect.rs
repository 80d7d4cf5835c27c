use crate::config::Method;
use crate::converter::ActixToReqwestConverter;
use crate::converter::ConverterError;
use crate::converter::Header;
use crate::converter::spec_convert_headers;
use crate::data::webhook::WebHookData;
use crate::data::webhook::spec_url_join;
use crate::error::Error;
use vstd::prelude::*;

verus! {

/// The method table of the forwarder: only these five methods are
/// translated at all; anything else fails before any network call.
pub open spec fn spec_method_supported(m: Method) -> bool {
    m == Method::GET || m == Method::POST || m == Method::PUT || m == Method::PATCH || m
        == Method::DELETE
}

/// The rows of the method table that forward the inbound body; the
/// query string is forwarded for every supported method.
pub open spec fn spec_forwards_body(m: Method) -> bool {
    m == Method::POST || m == Method::PUT || m == Method::PATCH
}

/// The outbound request the orchestrator has decided to send: body and
/// query inclusion are already settled by the method table.
#[derive(Debug)]
pub struct OutboundRequest {
    pub method: Method,
    pub url: String,
    pub headers: Vec<Header>,
    pub body: Option<Vec<u8>>,
    pub params: Option<Vec<(String, String)>>,
}

/// Assembles an outbound request from its parts, applying the per-verb
/// inclusion policy for body and query string.
pub struct ReqwestBuilder {
    url: String,
    body: Vec<u8>,
    headers: Vec<Header>,
    params: Vec<(String, String)>,
    method: Method,
    include_body: bool,
    include_params: bool,
}

impl ReqwestBuilder {
    pub closed spec fn spec_url(self) -> String {
        self.url
    }

    pub closed spec fn spec_body(self) -> Vec<u8> {
        self.body
    }

    pub closed spec fn spec_headers(self) -> Vec<Header> {
        self.headers
    }

    pub closed spec fn spec_params(self) -> Vec<(String, String)> {
        self.params
    }

    pub closed spec fn spec_method(self) -> Method {
        self.method
    }

    pub closed spec fn spec_include_body(self) -> bool {
        self.include_body
    }

    pub closed spec fn spec_include_params(self) -> bool {
        self.include_params
    }

    pub fn new(
        url: String,
        body: Vec<u8>,
        headers: Vec<Header>,
        params: Vec<(String, String)>,
        method: Method,
    ) -> (r: ReqwestBuilder)
        ensures
            r.spec_url() == url,
            r.spec_body() == body,
            r.spec_headers() == headers,
            r.spec_params() == params,
            r.spec_method() == method,
            !r.spec_include_body(),
            !r.spec_include_params(),
    {
        ReqwestBuilder {
            url,
            body,
            headers,
            params,
            method,
            include_body: false,
            include_params: false,
        }
    }

    fn include_body(&mut self)
        ensures
            *final(self) == (ReqwestBuilder { include_body: true, ..*old(self) }),
    {
        self.include_body = true;
    }

    fn include_params(&mut self)
        ensures
            *final(self) == (ReqwestBuilder { include_params: true, ..*old(self) }),
    {
        self.include_params = true;
    }

    pub fn build(self) -> (r: Result<OutboundRequest, Error>)
        requires
            !self.spec_include_body(),
            !self.spec_include_params(),
        ensures
            r is Ok <==> spec_method_supported(self.spec_method()),
            r matches Ok(q) ==> (q.method == self.spec_method() && q.url == self.spec_url()
                && q.headers == self.spec_headers() && q.params == Some(self.spec_params())
                && q.body == (if spec_forwards_body(self.spec_method()) {
                Some(self.spec_body())
            } else {
                None
            })),
            r matches Err(e) ==> e matches Error::InvalidRoute(s) && s@
                == self.spec_method().spec_name(),
    {
        let mut builder = self;
        match builder.method {
            Method::GET => {
                builder.include_params();
            },
            Method::POST => {
                builder.include_body();
                builder.include_params();
            },
            Method::PUT => {
                builder.include_body();
                builder.include_params();
            },
            Method::PATCH => {
                builder.include_body();
                builder.include_params();
            },
            Method::DELETE => {
                builder.include_params();
            },
            _ => {
                return Err(Error::invalid_route(&builder.method));
            },
        }
        let ReqwestBuilder { url, body, headers, params, method, include_body, include_params } =
            builder;
        let out_body = if include_body {
            Some(body)
        } else {
            None
        };
        let out_params = if include_params {
            Some(params)
        } else {
            None
        };
        Ok(OutboundRequest { method, url, headers, body: out_body, params: out_params })
    }
}

/// What the orchestrator decides for one inbound request that raised no
/// error: answer not-found without contacting the upstream, or forward.
#[derive(Debug)]
pub enum RedirectAction {
    NotFound,
    Forward(OutboundRequest),
}

/// The forwarded header set with the two service-credential headers
/// appended at the end, after every translated inbound header.
pub open spec fn spec_outbound_headers(
    out: Seq<Header>,
    inbound: Seq<Header>,
    data: WebHookData,
) -> bool {
    &&& out.len() == spec_convert_headers(inbound).len() + 2
    &&& out.take(out.len() - 2) == spec_convert_headers(inbound)
    &&& out[out.len() - 2].name@ == "CF-Access-Client-Id"@
    &&& out[out.len() - 2].value@ == vstd::utf8::encode_utf8(data.spec_access_id())
    &&& out[out.len() - 1].name@ == "CF-Access-Client-Secret"@
    &&& out[out.len() - 1].value@ == vstd::utf8::encode_utf8(data.spec_access_secret())
}

/// Decide one inbound request, up to the network: authorize the path
/// and method against the table, build the target URL, translate body
/// and headers, attach the credential headers, and apply the method
/// table. The caller performs the dispatch and translates the upstream
/// response back.
pub fn redirect(
    web_hook_data: &WebHookData,
    method: &Method,
    path: &str,
    headers: Vec<Header>,
    params: Vec<(String, String)>,
    payload: &Vec<Result<Vec<u8>, String>>,
) -> (r: Result<RedirectAction, Error>)
    requires
        web_hook_data.wf(),
    ensures
        r == Ok::<RedirectAction, Error>(RedirectAction::NotFound)
            <==> !web_hook_data.spec_allowed_paths().spec_allows(
            path@,
            *method,
        ),
        r matches Ok(RedirectAction::Forward(q)) <==> (
        web_hook_data.spec_allowed_paths().spec_allows(path@, *method) && spec_url_join(
            web_hook_data.spec_target_host(),
            path@,
        ) is Some && (forall|i: int| 0 <= i < payload@.len() ==> payload@[i] is Ok)
            && spec_method_supported(*method)),
        r matches Ok(RedirectAction::Forward(q)) ==> (q.method == *method && Some(q.url@)
            == spec_url_join(web_hook_data.spec_target_host(), path@) && spec_outbound_headers(
            q.headers@,
            headers@,
            *web_hook_data,
        ) && (q.params matches Some(p) && p@ == params@) && (if spec_forwards_body(*method) {
            (q.body matches Some(b) && b@ == crate::converter::spec_assembled_body(payload@))
        } else {
            q.body is None
        })),
        r matches Err(e) ==> web_hook_data.spec_allowed_paths().spec_allows(path@, *method),
        (web_hook_data.spec_allowed_paths().spec_allows(path@, *method) && spec_url_join(
            web_hook_data.spec_target_host(),
            path@,
        ) is None) ==> (r matches Err(e) && e is Custom),
        (web_hook_data.spec_allowed_paths().spec_allows(path@, *method) && spec_url_join(
            web_hook_data.spec_target_host(),
            path@,
        ) is Some && !(forall|i: int| 0 <= i < payload@.len() ==> payload@[i] is Ok)) ==> (
        r matches Err(e) && e is Custom),
        (web_hook_data.spec_allowed_paths().spec_allows(path@, *method) && spec_url_join(
            web_hook_data.spec_target_host(),
            path@,
        ) is Some && (forall|i: int| 0 <= i < payload@.len() ==> payload@[i] is Ok)
            && !spec_method_supported(*method)) ==> (r matches Err(e) && e matches
            Error::InvalidRoute(s) && s@ == method.spec_name()),
{
    // Only allow specific paths
    if !web_hook_data.is_allowed_path(path, method) {
        return Ok(RedirectAction::NotFound);
    }
    // Craft target url
    let target_url = match web_hook_data.get_target_url(path) {
        Ok(u) => u,
        Err(e) => {
            return Err(e);
        },
    };
    // Convert body
    let body = match ActixToReqwestConverter::convert_body(payload) {
        Ok(b) => b,
        Err(e) => {
            let message = match e {
                ConverterError::Payload(m) => m,
                ConverterError::InvalidStatusCode(_) => String::new(),
            };
            return Err(Error::Custom(message));
        },
    };
    // Convert headers, leaving room for the two credential headers
    let mut target_headers = ActixToReqwestConverter::convert_headers(headers, 2);
    // Add the service-credential headers
    let ghost before_credentials = target_headers@;
    target_headers.push(
        Header {
            name: String::from_str("CF-Access-Client-Id"),
            value: web_hook_data.access_id().as_str().as_bytes_vec(),
        },
    );
    target_headers.push(
        Header {
            name: String::from_str("CF-Access-Client-Secret"),
            value: web_hook_data.access_secret().as_str().as_bytes_vec(),
        },
    );
    proof {
        assert(target_headers@.take(target_headers@.len() - 2) =~= before_credentials);
    }
    // Build the outbound request
    let builder = ReqwestBuilder::new(target_url, body, target_headers, params, *method);
    match builder.build() {
        Ok(q) => Ok(RedirectAction::Forward(q)),
        Err(e) => Err(e),
    }
}

} // verus!
