pub mod build_phone;
