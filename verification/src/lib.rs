pub mod error;
pub mod fetcher;
pub mod markup;
pub mod number;
pub mod response;
pub mod text;
pub mod tls;
pub mod transport;
pub mod url;
