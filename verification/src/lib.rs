pub mod preimage;
