//! The status codes of HTTP responses, with their canonical reason phrases.

use vstd::prelude::*;

verus! {

/// A response status known to the status table.
#[derive(Clone, Copy, PartialEq, Eq, Debug, Structural)]
pub enum Status {
    Continue,
    SwitchingProtocols,
    Processing,
    EarlyHints,
    OK,
    Created,
    Accepted,
    NonAuthoritativeInformation,
    NoContent,
    ResetContent,
    PartialContent,
    MultiStatus,
    AlreadyReported,
    ContentDifferent,
    IMUsed,
    MultipleChoices,
    MovedPermanently,
    Found,
    SeeOther,
    NotModified,
    UseProxy,
    Unused,
    TemporaryRedirect,
    PermanentRedirect,
    TooManyRedirects,
    BadRequest,
    Unauthorized,
    PaymentRequired,
    Forbidden,
    NotFound,
    MethodNotAllowed,
    NotAcceptable,
    ProxyAuthenticationRequired,
    RequestTimeOut,
    Conflict,
    Gone,
    LengthRequired,
    PreconditionFailed,
    RequestEntityTooLarge,
    RequestURITooLong,
    UnsupportedMediaType,
    RequestedRangeUnsatisfiable,
    ExpectationFailed,
    ImATeapot,
    PageExpired,
    BadMappingOrMisdirectedRequest,
    UnprocessableEntity,
    Locked,
    MethodFailure,
    TooEarly,
    UpgradeRequired,
    InvalidDigitalSignature,
    PreconditionRequired,
    TooManyRequests,
    RequestHeaderFieldsTooLarge,
    RetryWith,
    BlockedByWindowsParentalControls,
    UnavailableForLegalReasons,
    UnrecoverableError,
    NoResponse,
    SSLCertificateError,
    SSLCertificateRequired,
    HTTPRequestSentToHTTPSPort,
    TokenExpiredOrInvalid,
    ClientClosedRequest,
    InternalServerError,
    NotImplemented,
    BadGatewayOuProxyError,
    ServiceUnavailable,
    GatewayTimeOut,
    HTTPVersionNotSupported,
    VariantAlsoNegotiates,
    InsufficientStorage,
    LoopDetected,
    BandwidthLimitExceeded,
    NotExtended,
    NetworkAuthenticationRequired,
    UnknownError,
    WebServerIsDown,
    ConnectionTimedOut,
    OriginIsUnreachable,
    ATimeoutOccurred,
    SSLHandshakeFailed,
    InvalidSSLCertificate,
    RailgunError,
}

impl Status {
    /// The table row of a status: code, reason phrase, and a description.
    pub open spec fn spec_descr(self) -> (u16, &'static str, &'static str) {
        match self {
            Status::Continue => (100, "Continue", "\tAttente de la suite de la requête."),
            Status::SwitchingProtocols => (101, "Switching Protocols", "\tAcceptation du changement de protocole."),
            Status::Processing => (102, "Processing", "WebDAV RFC 25185,6\tTraitement en cours (évite que le client dépasse le temps d’attente limite)."),
            Status::EarlyHints => (103, "Early Hints", "RFC 82977\t(Expérimental) Dans l'attente de la réponse définitive, le serveur renvoie des liens que le client peut commencer à télécharger."),
            Status::OK => (200, "OK", "RFC 19458\tRequête traitée avec succès. La réponse dépendra de la méthode de requête utilisée."),
            Status::Created => (201, "Created", "RFC 19458\tRequête traitée avec succès et création d’un document."),
            Status::Accepted => (202, "Accepted", "RFC 19458\tRequête traitée, mais sans garantie de résultat."),
            Status::NonAuthoritativeInformation => (203, "Non-Authoritative Information", "\tInformation renvoyée, mais générée par une source non certifiée."),
            Status::NoContent => (204, "No Content", "RFC 19458\tRequête traitée avec succès mais pas d’information à renvoyer."),
            Status::ResetContent => (205, "Reset Content", "RFC 20689\tRequête traitée avec succès, la page courante peut être effacée."),
            Status::PartialContent => (206, "Partial Content", "RFC 20689\tUne partie seulement de la ressource a été transmise."),
            Status::MultiStatus => (207, "Multi-Status", "WebDAV\tRéponse multiple."),
            Status::AlreadyReported => (208, "Already Reported", "WebDAV\tLe document a été envoyé précédemment dans cette collection."),
            Status::ContentDifferent => (210, "Content Different", "WebDAV\tLa copie de la ressource côté client diffère de celle du serveur (contenu ou propriétés)."),
            Status::IMUsed => (226, "IM Used", "RFC 322910\tLe serveur a accompli la requête pour la ressource, et la réponse est une représentation du résultat d'une ou plusieurs manipulations d'instances appliquées à l'instance actuelle."),
            Status::MultipleChoices => (300, "Multiple Choices", "RFC 19458\tL’URI demandée se rapporte à plusieurs ressources."),
            Status::MovedPermanently => (301, "Moved Permanently", "RFC 19458\tDocument déplacé de façon permanente."),
            Status::Found => (302, "Found", "RFC 19458\tDocument déplacé de façon temporaire."),
            Status::SeeOther => (303, "See Other", "RFC 20689\tLa réponse à cette requête est ailleurs."),
            Status::NotModified => (304, "Not Modified", "RFC 19458\tDocument non modifié depuis la dernière requête."),
            Status::UseProxy => (305, "Use Proxy (depuis HTTP/1.1)", "RFC 20689\tLa requête doit être ré-adressée au proxy."),
            Status::Unused => (306, "(inutilisé)", "RFC 261611\tLa RFC 261611 indique que ce code inutilisé est réservé, car il était utilisé dans une ancienne version de la spécification. Il signifiait « Les requêtes suivantes doivent utiliser le proxy spécifié »12."),
            Status::TemporaryRedirect => (307, "Temporary Redirect", "\tLa requête doit être redirigée temporairement vers l’URI spécifiée sans changement de méthode13."),
            Status::PermanentRedirect => (308, "Permanent Redirect", "\tLa requête doit être redirigée définitivement vers l’URI spécifiée sans changement de méthode14."),
            Status::TooManyRedirects => (310, "Too many Redirects", "\tLa requête doit être redirigée de trop nombreuses fois, ou est victime d’une boucle de redirection."),
            Status::BadRequest => (400, "Bad Request", "RFC 19458\tLa syntaxe de la requête est erronée."),
            Status::Unauthorized => (401, "Unauthorized", "RFC 19458\tUne authentification est nécessaire pour accéder à la ressource."),
            Status::PaymentRequired => (402, "Payment Required", "RFC 20689\tPaiement requis pour accéder à la ressource."),
            Status::Forbidden => (403, "Forbidden", "RFC 19458\tLe serveur a compris la requête, mais refuse de l'exécuter. Contrairement à l'erreur 401, s'authentifier ne fera aucune différence. Sur les serveurs où l'authentification est requise, cela signifie généralement que l'authentification a été acceptée mais que les droits d'accès ne permettent pas au client d'accéder à la ressource."),
            Status::NotFound => (404, "Not Found", "RFC 19458\tRessource non trouvée."),
            Status::MethodNotAllowed => (405, "Method Not Allowed", "RFC 20689\tMéthode de requête non autorisée."),
            Status::NotAcceptable => (406, "Not Acceptable", "RFC 20689\tLa ressource demandée n'est pas disponible dans un format qui respecterait les en-têtes « Accept » de la requête."),
            Status::ProxyAuthenticationRequired => (407, "Proxy Authentication Required", "RFC 20689\tAccès à la ressource autorisé par identification avec le proxy."),
            Status::RequestTimeOut => (408, "Request Time-out", "RFC 20689\tTemps d’attente d’une requête du client, écoulé côté serveur. D'après les spécifications HTTP : « Le client n'a pas produit de requête dans le délai que le serveur était prêt à attendre. Le client PEUT répéter la demande sans modifications à tout moment ultérieur »15."),
            Status::Conflict => (409, "Conflict", "RFC 20689\tLa requête ne peut être traitée à la suite d'un conflit avec l'état actuel du serveur."),
            Status::Gone => (410, "Gone", "RFC 20689\tLa ressource n'est plus disponible et aucune adresse de redirection n’est connue."),
            Status::LengthRequired => (411, "Length Required", "RFC 20689\tLa longueur de la requête n’a pas été précisée."),
            Status::PreconditionFailed => (412, "Precondition Failed", "RFC 20689\tPréconditions envoyées par la requête non vérifiées."),
            Status::RequestEntityTooLarge => (413, "Request Entity Too Large", "RFC 20689\tTraitement abandonné dû à une requête trop importante."),
            Status::RequestURITooLong => (414, "Request-URI Too Long", "RFC 20689\tURI trop longue."),
            Status::UnsupportedMediaType => (415, "Unsupported Media Type", "RFC 20689\tFormat de requête non supporté pour une méthode et une ressource données."),
            Status::RequestedRangeUnsatisfiable => (416, "Requested range unsatisfiable", "\tChamps d’en-tête de requête « range » incorrect."),
            Status::ExpectationFailed => (417, "Expectation failed", "\tComportement attendu et défini dans l’en-tête de la requête insatisfaisante."),
            Status::ImATeapot => (418, "I’m a teapot", "RFC 232416\t« Je suis une théière » : Ce code est défini dans la RFC 232417 datée du 1er avril 1998, Hyper Text Coffee Pot Control Protocol."),
            Status::PageExpired => (419, "Page expired", "\tRessource expirée"),
            Status::BadMappingOrMisdirectedRequest => (421, "Bad mapping / Misdirected Request", "\tLa requête a été envoyée à un serveur qui n'est pas capable de produire une réponse (par exemple, car une connexion a été réutilisée)."),
            Status::UnprocessableEntity => (422, "Unprocessable entity", "WebDAV\tL’entité fournie avec la requête est incompréhensible ou incomplète."),
            Status::Locked => (423, "Locked", "WebDAV\tL’opération ne peut avoir lieu car la ressource est verrouillée."),
            Status::MethodFailure => (424, "Method failure", "WebDAV\tUne méthode de la transaction a échoué."),
            Status::TooEarly => (425, "Too Early", "RFC 847018\tLe serveur ne peut traiter la demande car elle risque d'être rejouée."),
            Status::UpgradeRequired => (426, "Upgrade Required", "RFC 281719\tLe client devrait changer de protocole, par exemple au profit de TLS/1.0."),
            Status::InvalidDigitalSignature => (427, "Invalid digital signature", "Microsoft\tLa signature numérique du document est non-valide."),
            Status::PreconditionRequired => (428, "Precondition Required", "RFC 658520\tLa requête doit être conditionnelle."),
            Status::TooManyRequests => (429, "Too Many Requests", "RFC 658520\tLe client a émis trop de requêtes dans un délai donné."),
            Status::RequestHeaderFieldsTooLarge => (431, "Request Header Fields Too Large", "RFC 658520\tLes entêtes HTTP émises dépassent la taille maximale admise par le serveur."),
            Status::RetryWith => (449, "Retry With", "Microsoft\tLa requête devrait être renvoyée après avoir effectué une action."),
            Status::BlockedByWindowsParentalControls => (450, "Blocked by Windows Parental Controls", "Microsoft\tCette erreur est produite lorsque les outils de contrôle parental de Microsoft Windows sont activés et bloquent l’accès à la page."),
            Status::UnavailableForLegalReasons => (451, "Unavailable For Legal Reasons", "RFC 772521\tLa ressource demandée est inaccessible pour des raisons d'ordre légal."),
            Status::UnrecoverableError => (456, "Unrecoverable Error", "WebDAV Erreur irrécupérable."),
            Status::NoResponse => (444, "No Response", "Nginx\tIndique que le serveur n'a retourné aucune information vers le client et a fermé la connexion."),
            Status::SSLCertificateError => (495, "SSL Certificate Error", "Nginx\tUne extension de l'erreur 400 Bad Request, utilisée lorsque le client a fourni un certificat invalide."),
            Status::SSLCertificateRequired => (496, "SSL Certificate Required", "Nginx\tUne extension de l'erreur 400 Bad Request, utilisée lorsqu'un certificat client requis n'est pas fourni."),
            Status::HTTPRequestSentToHTTPSPort => (497, "HTTP Request Sent to HTTPS Port", "Nginx\tUne extension de l'erreur 400 Bad Request, utilisée lorsque le client envoie une requête HTTP vers le port 443 normalement destiné aux requêtes HTTPS."),
            Status::TokenExpiredOrInvalid => (498, "Token expired/invalid", "Nginx\tLe jeton a expiré ou est invalide."),
            Status::ClientClosedRequest => (499, "Client Closed Request", "Nginx\tLe client a fermé la connexion avant de recevoir la réponse. Cette erreur se produit quand le traitement est trop long côté serveur22."),
            Status::InternalServerError => (500, "Internal Server Error", "RFC 19458\tErreur interne du serveur."),
            Status::NotImplemented => (501, "Not Implemented", "RFC 19458\tFonctionnalité réclamée non supportée par le serveur."),
            Status::BadGatewayOuProxyError => (502, "Bad Gateway ou Proxy Error", "RFC 19458\tEn agissant en tant que serveur proxy ou passerelle, le serveur a reçu une réponse invalide depuis le serveur distant."),
            Status::ServiceUnavailable => (503, "Service Unavailable", "RFC 19458\tService temporairement indisponible ou en maintenance."),
            Status::GatewayTimeOut => (504, "Gateway Time-out", "RFC 20689\tTemps d’attente d’une réponse d’un serveur à un serveur intermédiaire écoulé."),
            Status::HTTPVersionNotSupported => (505, "HTTP Version not supported", "RFC 20689\tVersion HTTP non gérée par le serveur."),
            Status::VariantAlsoNegotiates => (506, "Variant Also Negotiates", "RFC 229523\tErreur de négociation. Transparent content negociation."),
            Status::InsufficientStorage => (507, "Insufficient storage", "WebDAV\tEspace insuffisant pour modifier les propriétés ou construire la collection."),
            Status::LoopDetected => (508, "Loop detected", "WebDAV\tBoucle dans une mise en relation de ressources (RFC 584224)."),
            Status::BandwidthLimitExceeded => (509, "Bandwidth Limit Exceeded", "\tUtilisé par de nombreux serveurs pour indiquer un dépassement de quota."),
            Status::NotExtended => (510, "Not extended", "RFC 277425\tLa requête ne respecte pas la politique d'accès aux ressources HTTP étendues."),
            Status::NetworkAuthenticationRequired => (511, "Network authentication required", "RFC 658520\tLe client doit s'authentifier pour accéder au réseau. Utilisé par les portails captifs pour rediriger les clients vers la page d'authentification."),
            Status::UnknownError => (520, "Unknown Error", "Cloudflare\tRéponse générique lorsque le serveur d'origine retourne un résultat imprévu."),
            Status::WebServerIsDown => (521, "Web Server Is Down", "Cloudflare\tLe serveur a refusé la connexion depuis Cloudflare."),
            Status::ConnectionTimedOut => (522, "Connection Timed Out", "Cloudflare\tCloudflare n'a pas eu de retour avec le serveur d'origine dans les temps."),
            Status::OriginIsUnreachable => (523, "Origin Is Unreachable", "Cloudflare\tCloudflare n'a pas réussi à joindre le serveur d'origine. Cela peut se produire en cas d'échec de résolution de nom de serveur DNS."),
            Status::ATimeoutOccurred => (524, "A Timeout Occurred", "Cloudflare\tCloudflare a établi une connexion TCP avec le serveur d'origine mais n'a pas reçu de réponse HTTP avant l'expiration du délai de connexion."),
            Status::SSLHandshakeFailed => (525, "SSL Handshake Failed", "Cloudflare\tCloudflare n'a pas pu négocier un SSL/TLS handshake avec le serveur d'origine."),
            Status::InvalidSSLCertificate => (526, "Invalid SSL Certificate", "Cloudflare\tCloudflare n'a pas pu valider le certificat SSL présenté par le serveur d'origine."),
            Status::RailgunError => (527, "Railgun Error", "Cloudflare\tLa requête a dépassé le délai de connexion ou a échoué après que la connexion WAN a été établie."),
        }
    }

    pub open spec fn spec_code(self) -> u16 {
        self.spec_descr().0
    }

    pub open spec fn spec_text(self) -> Seq<char> {
        self.spec_descr().1@
    }

    pub fn code(&self) -> (r: u16)
        ensures
            r == self.spec_code(),
    {
        self.descr().0
    }

    pub fn text(&self) -> (r: &'static str)
        ensures
            r == self.spec_descr().1,
    {
        self.descr().1
    }

    pub fn details(&self) -> (r: &'static str)
        ensures
            r == self.spec_descr().2,
    {
        self.descr().2
    }

    pub fn descr(&self) -> (r: (u16, &'static str, &'static str))
        ensures
            r == self.spec_descr(),
    {
        match self {
            Status::Continue => (100, "Continue", "\tAttente de la suite de la requête."),
            Status::SwitchingProtocols => (101, "Switching Protocols", "\tAcceptation du changement de protocole."),
            Status::Processing => (102, "Processing", "WebDAV RFC 25185,6\tTraitement en cours (évite que le client dépasse le temps d’attente limite)."),
            Status::EarlyHints => (103, "Early Hints", "RFC 82977\t(Expérimental) Dans l'attente de la réponse définitive, le serveur renvoie des liens que le client peut commencer à télécharger."),
            Status::OK => (200, "OK", "RFC 19458\tRequête traitée avec succès. La réponse dépendra de la méthode de requête utilisée."),
            Status::Created => (201, "Created", "RFC 19458\tRequête traitée avec succès et création d’un document."),
            Status::Accepted => (202, "Accepted", "RFC 19458\tRequête traitée, mais sans garantie de résultat."),
            Status::NonAuthoritativeInformation => (203, "Non-Authoritative Information", "\tInformation renvoyée, mais générée par une source non certifiée."),
            Status::NoContent => (204, "No Content", "RFC 19458\tRequête traitée avec succès mais pas d’information à renvoyer."),
            Status::ResetContent => (205, "Reset Content", "RFC 20689\tRequête traitée avec succès, la page courante peut être effacée."),
            Status::PartialContent => (206, "Partial Content", "RFC 20689\tUne partie seulement de la ressource a été transmise."),
            Status::MultiStatus => (207, "Multi-Status", "WebDAV\tRéponse multiple."),
            Status::AlreadyReported => (208, "Already Reported", "WebDAV\tLe document a été envoyé précédemment dans cette collection."),
            Status::ContentDifferent => (210, "Content Different", "WebDAV\tLa copie de la ressource côté client diffère de celle du serveur (contenu ou propriétés)."),
            Status::IMUsed => (226, "IM Used", "RFC 322910\tLe serveur a accompli la requête pour la ressource, et la réponse est une représentation du résultat d'une ou plusieurs manipulations d'instances appliquées à l'instance actuelle."),
            Status::MultipleChoices => (300, "Multiple Choices", "RFC 19458\tL’URI demandée se rapporte à plusieurs ressources."),
            Status::MovedPermanently => (301, "Moved Permanently", "RFC 19458\tDocument déplacé de façon permanente."),
            Status::Found => (302, "Found", "RFC 19458\tDocument déplacé de façon temporaire."),
            Status::SeeOther => (303, "See Other", "RFC 20689\tLa réponse à cette requête est ailleurs."),
            Status::NotModified => (304, "Not Modified", "RFC 19458\tDocument non modifié depuis la dernière requête."),
            Status::UseProxy => (305, "Use Proxy (depuis HTTP/1.1)", "RFC 20689\tLa requête doit être ré-adressée au proxy."),
            Status::Unused => (306, "(inutilisé)", "RFC 261611\tLa RFC 261611 indique que ce code inutilisé est réservé, car il était utilisé dans une ancienne version de la spécification. Il signifiait « Les requêtes suivantes doivent utiliser le proxy spécifié »12."),
            Status::TemporaryRedirect => (307, "Temporary Redirect", "\tLa requête doit être redirigée temporairement vers l’URI spécifiée sans changement de méthode13."),
            Status::PermanentRedirect => (308, "Permanent Redirect", "\tLa requête doit être redirigée définitivement vers l’URI spécifiée sans changement de méthode14."),
            Status::TooManyRedirects => (310, "Too many Redirects", "\tLa requête doit être redirigée de trop nombreuses fois, ou est victime d’une boucle de redirection."),
            Status::BadRequest => (400, "Bad Request", "RFC 19458\tLa syntaxe de la requête est erronée."),
            Status::Unauthorized => (401, "Unauthorized", "RFC 19458\tUne authentification est nécessaire pour accéder à la ressource."),
            Status::PaymentRequired => (402, "Payment Required", "RFC 20689\tPaiement requis pour accéder à la ressource."),
            Status::Forbidden => (403, "Forbidden", "RFC 19458\tLe serveur a compris la requête, mais refuse de l'exécuter. Contrairement à l'erreur 401, s'authentifier ne fera aucune différence. Sur les serveurs où l'authentification est requise, cela signifie généralement que l'authentification a été acceptée mais que les droits d'accès ne permettent pas au client d'accéder à la ressource."),
            Status::NotFound => (404, "Not Found", "RFC 19458\tRessource non trouvée."),
            Status::MethodNotAllowed => (405, "Method Not Allowed", "RFC 20689\tMéthode de requête non autorisée."),
            Status::NotAcceptable => (406, "Not Acceptable", "RFC 20689\tLa ressource demandée n'est pas disponible dans un format qui respecterait les en-têtes « Accept » de la requête."),
            Status::ProxyAuthenticationRequired => (407, "Proxy Authentication Required", "RFC 20689\tAccès à la ressource autorisé par identification avec le proxy."),
            Status::RequestTimeOut => (408, "Request Time-out", "RFC 20689\tTemps d’attente d’une requête du client, écoulé côté serveur. D'après les spécifications HTTP : « Le client n'a pas produit de requête dans le délai que le serveur était prêt à attendre. Le client PEUT répéter la demande sans modifications à tout moment ultérieur »15."),
            Status::Conflict => (409, "Conflict", "RFC 20689\tLa requête ne peut être traitée à la suite d'un conflit avec l'état actuel du serveur."),
            Status::Gone => (410, "Gone", "RFC 20689\tLa ressource n'est plus disponible et aucune adresse de redirection n’est connue."),
            Status::LengthRequired => (411, "Length Required", "RFC 20689\tLa longueur de la requête n’a pas été précisée."),
            Status::PreconditionFailed => (412, "Precondition Failed", "RFC 20689\tPréconditions envoyées par la requête non vérifiées."),
            Status::RequestEntityTooLarge => (413, "Request Entity Too Large", "RFC 20689\tTraitement abandonné dû à une requête trop importante."),
            Status::RequestURITooLong => (414, "Request-URI Too Long", "RFC 20689\tURI trop longue."),
            Status::UnsupportedMediaType => (415, "Unsupported Media Type", "RFC 20689\tFormat de requête non supporté pour une méthode et une ressource données."),
            Status::RequestedRangeUnsatisfiable => (416, "Requested range unsatisfiable", "\tChamps d’en-tête de requête « range » incorrect."),
            Status::ExpectationFailed => (417, "Expectation failed", "\tComportement attendu et défini dans l’en-tête de la requête insatisfaisante."),
            Status::ImATeapot => (418, "I’m a teapot", "RFC 232416\t« Je suis une théière » : Ce code est défini dans la RFC 232417 datée du 1er avril 1998, Hyper Text Coffee Pot Control Protocol."),
            Status::PageExpired => (419, "Page expired", "\tRessource expirée"),
            Status::BadMappingOrMisdirectedRequest => (421, "Bad mapping / Misdirected Request", "\tLa requête a été envoyée à un serveur qui n'est pas capable de produire une réponse (par exemple, car une connexion a été réutilisée)."),
            Status::UnprocessableEntity => (422, "Unprocessable entity", "WebDAV\tL’entité fournie avec la requête est incompréhensible ou incomplète."),
            Status::Locked => (423, "Locked", "WebDAV\tL’opération ne peut avoir lieu car la ressource est verrouillée."),
            Status::MethodFailure => (424, "Method failure", "WebDAV\tUne méthode de la transaction a échoué."),
            Status::TooEarly => (425, "Too Early", "RFC 847018\tLe serveur ne peut traiter la demande car elle risque d'être rejouée."),
            Status::UpgradeRequired => (426, "Upgrade Required", "RFC 281719\tLe client devrait changer de protocole, par exemple au profit de TLS/1.0."),
            Status::InvalidDigitalSignature => (427, "Invalid digital signature", "Microsoft\tLa signature numérique du document est non-valide."),
            Status::PreconditionRequired => (428, "Precondition Required", "RFC 658520\tLa requête doit être conditionnelle."),
            Status::TooManyRequests => (429, "Too Many Requests", "RFC 658520\tLe client a émis trop de requêtes dans un délai donné."),
            Status::RequestHeaderFieldsTooLarge => (431, "Request Header Fields Too Large", "RFC 658520\tLes entêtes HTTP émises dépassent la taille maximale admise par le serveur."),
            Status::RetryWith => (449, "Retry With", "Microsoft\tLa requête devrait être renvoyée après avoir effectué une action."),
            Status::BlockedByWindowsParentalControls => (450, "Blocked by Windows Parental Controls", "Microsoft\tCette erreur est produite lorsque les outils de contrôle parental de Microsoft Windows sont activés et bloquent l’accès à la page."),
            Status::UnavailableForLegalReasons => (451, "Unavailable For Legal Reasons", "RFC 772521\tLa ressource demandée est inaccessible pour des raisons d'ordre légal."),
            Status::UnrecoverableError => (456, "Unrecoverable Error", "WebDAV Erreur irrécupérable."),
            Status::NoResponse => (444, "No Response", "Nginx\tIndique que le serveur n'a retourné aucune information vers le client et a fermé la connexion."),
            Status::SSLCertificateError => (495, "SSL Certificate Error", "Nginx\tUne extension de l'erreur 400 Bad Request, utilisée lorsque le client a fourni un certificat invalide."),
            Status::SSLCertificateRequired => (496, "SSL Certificate Required", "Nginx\tUne extension de l'erreur 400 Bad Request, utilisée lorsqu'un certificat client requis n'est pas fourni."),
            Status::HTTPRequestSentToHTTPSPort => (497, "HTTP Request Sent to HTTPS Port", "Nginx\tUne extension de l'erreur 400 Bad Request, utilisée lorsque le client envoie une requête HTTP vers le port 443 normalement destiné aux requêtes HTTPS."),
            Status::TokenExpiredOrInvalid => (498, "Token expired/invalid", "Nginx\tLe jeton a expiré ou est invalide."),
            Status::ClientClosedRequest => (499, "Client Closed Request", "Nginx\tLe client a fermé la connexion avant de recevoir la réponse. Cette erreur se produit quand le traitement est trop long côté serveur22."),
            Status::InternalServerError => (500, "Internal Server Error", "RFC 19458\tErreur interne du serveur."),
            Status::NotImplemented => (501, "Not Implemented", "RFC 19458\tFonctionnalité réclamée non supportée par le serveur."),
            Status::BadGatewayOuProxyError => (502, "Bad Gateway ou Proxy Error", "RFC 19458\tEn agissant en tant que serveur proxy ou passerelle, le serveur a reçu une réponse invalide depuis le serveur distant."),
            Status::ServiceUnavailable => (503, "Service Unavailable", "RFC 19458\tService temporairement indisponible ou en maintenance."),
            Status::GatewayTimeOut => (504, "Gateway Time-out", "RFC 20689\tTemps d’attente d’une réponse d’un serveur à un serveur intermédiaire écoulé."),
            Status::HTTPVersionNotSupported => (505, "HTTP Version not supported", "RFC 20689\tVersion HTTP non gérée par le serveur."),
            Status::VariantAlsoNegotiates => (506, "Variant Also Negotiates", "RFC 229523\tErreur de négociation. Transparent content negociation."),
            Status::InsufficientStorage => (507, "Insufficient storage", "WebDAV\tEspace insuffisant pour modifier les propriétés ou construire la collection."),
            Status::LoopDetected => (508, "Loop detected", "WebDAV\tBoucle dans une mise en relation de ressources (RFC 584224)."),
            Status::BandwidthLimitExceeded => (509, "Bandwidth Limit Exceeded", "\tUtilisé par de nombreux serveurs pour indiquer un dépassement de quota."),
            Status::NotExtended => (510, "Not extended", "RFC 277425\tLa requête ne respecte pas la politique d'accès aux ressources HTTP étendues."),
            Status::NetworkAuthenticationRequired => (511, "Network authentication required", "RFC 658520\tLe client doit s'authentifier pour accéder au réseau. Utilisé par les portails captifs pour rediriger les clients vers la page d'authentification."),
            Status::UnknownError => (520, "Unknown Error", "Cloudflare\tRéponse générique lorsque le serveur d'origine retourne un résultat imprévu."),
            Status::WebServerIsDown => (521, "Web Server Is Down", "Cloudflare\tLe serveur a refusé la connexion depuis Cloudflare."),
            Status::ConnectionTimedOut => (522, "Connection Timed Out", "Cloudflare\tCloudflare n'a pas eu de retour avec le serveur d'origine dans les temps."),
            Status::OriginIsUnreachable => (523, "Origin Is Unreachable", "Cloudflare\tCloudflare n'a pas réussi à joindre le serveur d'origine. Cela peut se produire en cas d'échec de résolution de nom de serveur DNS."),
            Status::ATimeoutOccurred => (524, "A Timeout Occurred", "Cloudflare\tCloudflare a établi une connexion TCP avec le serveur d'origine mais n'a pas reçu de réponse HTTP avant l'expiration du délai de connexion."),
            Status::SSLHandshakeFailed => (525, "SSL Handshake Failed", "Cloudflare\tCloudflare n'a pas pu négocier un SSL/TLS handshake avec le serveur d'origine."),
            Status::InvalidSSLCertificate => (526, "Invalid SSL Certificate", "Cloudflare\tCloudflare n'a pas pu valider le certificat SSL présenté par le serveur d'origine."),
            Status::RailgunError => (527, "Railgun Error", "Cloudflare\tLa requête a dépassé le délai de connexion ou a échoué après que la connexion WAN a été établie."),
        }
    }

    /// The status whose code is `code`, if the table holds one.
    pub fn from_code(code: u16) -> (r: Option<Status>)
        ensures
            r == status_of(code),
            match r {
                Some(s) => s.spec_code() == code,
                None => forall|s: Status| #[trigger] s.spec_code() != code,
            },
    {
        match code {
            100 => Some(Status::Continue),
            101 => Some(Status::SwitchingProtocols),
            102 => Some(Status::Processing),
            103 => Some(Status::EarlyHints),
            200 => Some(Status::OK),
            201 => Some(Status::Created),
            202 => Some(Status::Accepted),
            203 => Some(Status::NonAuthoritativeInformation),
            204 => Some(Status::NoContent),
            205 => Some(Status::ResetContent),
            206 => Some(Status::PartialContent),
            207 => Some(Status::MultiStatus),
            208 => Some(Status::AlreadyReported),
            210 => Some(Status::ContentDifferent),
            226 => Some(Status::IMUsed),
            300 => Some(Status::MultipleChoices),
            301 => Some(Status::MovedPermanently),
            302 => Some(Status::Found),
            303 => Some(Status::SeeOther),
            304 => Some(Status::NotModified),
            305 => Some(Status::UseProxy),
            306 => Some(Status::Unused),
            307 => Some(Status::TemporaryRedirect),
            308 => Some(Status::PermanentRedirect),
            310 => Some(Status::TooManyRedirects),
            400 => Some(Status::BadRequest),
            401 => Some(Status::Unauthorized),
            402 => Some(Status::PaymentRequired),
            403 => Some(Status::Forbidden),
            404 => Some(Status::NotFound),
            405 => Some(Status::MethodNotAllowed),
            406 => Some(Status::NotAcceptable),
            407 => Some(Status::ProxyAuthenticationRequired),
            408 => Some(Status::RequestTimeOut),
            409 => Some(Status::Conflict),
            410 => Some(Status::Gone),
            411 => Some(Status::LengthRequired),
            412 => Some(Status::PreconditionFailed),
            413 => Some(Status::RequestEntityTooLarge),
            414 => Some(Status::RequestURITooLong),
            415 => Some(Status::UnsupportedMediaType),
            416 => Some(Status::RequestedRangeUnsatisfiable),
            417 => Some(Status::ExpectationFailed),
            418 => Some(Status::ImATeapot),
            419 => Some(Status::PageExpired),
            421 => Some(Status::BadMappingOrMisdirectedRequest),
            422 => Some(Status::UnprocessableEntity),
            423 => Some(Status::Locked),
            424 => Some(Status::MethodFailure),
            425 => Some(Status::TooEarly),
            426 => Some(Status::UpgradeRequired),
            427 => Some(Status::InvalidDigitalSignature),
            428 => Some(Status::PreconditionRequired),
            429 => Some(Status::TooManyRequests),
            431 => Some(Status::RequestHeaderFieldsTooLarge),
            449 => Some(Status::RetryWith),
            450 => Some(Status::BlockedByWindowsParentalControls),
            451 => Some(Status::UnavailableForLegalReasons),
            456 => Some(Status::UnrecoverableError),
            444 => Some(Status::NoResponse),
            495 => Some(Status::SSLCertificateError),
            496 => Some(Status::SSLCertificateRequired),
            497 => Some(Status::HTTPRequestSentToHTTPSPort),
            498 => Some(Status::TokenExpiredOrInvalid),
            499 => Some(Status::ClientClosedRequest),
            500 => Some(Status::InternalServerError),
            501 => Some(Status::NotImplemented),
            502 => Some(Status::BadGatewayOuProxyError),
            503 => Some(Status::ServiceUnavailable),
            504 => Some(Status::GatewayTimeOut),
            505 => Some(Status::HTTPVersionNotSupported),
            506 => Some(Status::VariantAlsoNegotiates),
            507 => Some(Status::InsufficientStorage),
            508 => Some(Status::LoopDetected),
            509 => Some(Status::BandwidthLimitExceeded),
            510 => Some(Status::NotExtended),
            511 => Some(Status::NetworkAuthenticationRequired),
            520 => Some(Status::UnknownError),
            521 => Some(Status::WebServerIsDown),
            522 => Some(Status::ConnectionTimedOut),
            523 => Some(Status::OriginIsUnreachable),
            524 => Some(Status::ATimeoutOccurred),
            525 => Some(Status::SSLHandshakeFailed),
            526 => Some(Status::InvalidSSLCertificate),
            527 => Some(Status::RailgunError),
            _ => None,
        }
    }
}

/// The status whose code is `code`, if the table holds one.
pub open spec fn status_of(code: u16) -> Option<Status> {
    match code {
        100 => Some(Status::Continue),
        101 => Some(Status::SwitchingProtocols),
        102 => Some(Status::Processing),
        103 => Some(Status::EarlyHints),
        200 => Some(Status::OK),
        201 => Some(Status::Created),
        202 => Some(Status::Accepted),
        203 => Some(Status::NonAuthoritativeInformation),
        204 => Some(Status::NoContent),
        205 => Some(Status::ResetContent),
        206 => Some(Status::PartialContent),
        207 => Some(Status::MultiStatus),
        208 => Some(Status::AlreadyReported),
        210 => Some(Status::ContentDifferent),
        226 => Some(Status::IMUsed),
        300 => Some(Status::MultipleChoices),
        301 => Some(Status::MovedPermanently),
        302 => Some(Status::Found),
        303 => Some(Status::SeeOther),
        304 => Some(Status::NotModified),
        305 => Some(Status::UseProxy),
        306 => Some(Status::Unused),
        307 => Some(Status::TemporaryRedirect),
        308 => Some(Status::PermanentRedirect),
        310 => Some(Status::TooManyRedirects),
        400 => Some(Status::BadRequest),
        401 => Some(Status::Unauthorized),
        402 => Some(Status::PaymentRequired),
        403 => Some(Status::Forbidden),
        404 => Some(Status::NotFound),
        405 => Some(Status::MethodNotAllowed),
        406 => Some(Status::NotAcceptable),
        407 => Some(Status::ProxyAuthenticationRequired),
        408 => Some(Status::RequestTimeOut),
        409 => Some(Status::Conflict),
        410 => Some(Status::Gone),
        411 => Some(Status::LengthRequired),
        412 => Some(Status::PreconditionFailed),
        413 => Some(Status::RequestEntityTooLarge),
        414 => Some(Status::RequestURITooLong),
        415 => Some(Status::UnsupportedMediaType),
        416 => Some(Status::RequestedRangeUnsatisfiable),
        417 => Some(Status::ExpectationFailed),
        418 => Some(Status::ImATeapot),
        419 => Some(Status::PageExpired),
        421 => Some(Status::BadMappingOrMisdirectedRequest),
        422 => Some(Status::UnprocessableEntity),
        423 => Some(Status::Locked),
        424 => Some(Status::MethodFailure),
        425 => Some(Status::TooEarly),
        426 => Some(Status::UpgradeRequired),
        427 => Some(Status::InvalidDigitalSignature),
        428 => Some(Status::PreconditionRequired),
        429 => Some(Status::TooManyRequests),
        431 => Some(Status::RequestHeaderFieldsTooLarge),
        449 => Some(Status::RetryWith),
        450 => Some(Status::BlockedByWindowsParentalControls),
        451 => Some(Status::UnavailableForLegalReasons),
        456 => Some(Status::UnrecoverableError),
        444 => Some(Status::NoResponse),
        495 => Some(Status::SSLCertificateError),
        496 => Some(Status::SSLCertificateRequired),
        497 => Some(Status::HTTPRequestSentToHTTPSPort),
        498 => Some(Status::TokenExpiredOrInvalid),
        499 => Some(Status::ClientClosedRequest),
        500 => Some(Status::InternalServerError),
        501 => Some(Status::NotImplemented),
        502 => Some(Status::BadGatewayOuProxyError),
        503 => Some(Status::ServiceUnavailable),
        504 => Some(Status::GatewayTimeOut),
        505 => Some(Status::HTTPVersionNotSupported),
        506 => Some(Status::VariantAlsoNegotiates),
        507 => Some(Status::InsufficientStorage),
        508 => Some(Status::LoopDetected),
        509 => Some(Status::BandwidthLimitExceeded),
        510 => Some(Status::NotExtended),
        511 => Some(Status::NetworkAuthenticationRequired),
        520 => Some(Status::UnknownError),
        521 => Some(Status::WebServerIsDown),
        522 => Some(Status::ConnectionTimedOut),
        523 => Some(Status::OriginIsUnreachable),
        524 => Some(Status::ATimeoutOccurred),
        525 => Some(Status::SSLHandshakeFailed),
        526 => Some(Status::InvalidSSLCertificate),
        527 => Some(Status::RailgunError),
        _ => None,
    }
}

/// The canonical reason phrase of `code`, if the table knows the code.
pub open spec fn reason_of(code: u16) -> Option<Seq<char>> {
    match status_of(code) {
        Some(s) => Some(s.spec_text()),
        None => None,
    }
}

} // verus!
